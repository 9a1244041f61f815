use lofi::event::{EventAction, EventQueue, ScheduleError, ScheduledEvent, Section};

#[test]
fn pops_in_tick_order() {
    let mut q: EventQueue<4> = EventQueue::new();
    q.push(ScheduledEvent {
        fire_at_tick: 20,
        action: EventAction::SetSection(Section::Drop),
        id: 2,
    })
    .unwrap();
    q.push(ScheduledEvent {
        fire_at_tick: 10,
        action: EventAction::SetSection(Section::Groove),
        id: 1,
    })
    .unwrap();
    assert_eq!(q.pop_due(9), None);
    assert_eq!(q.pop_due(10).unwrap().id, 1);
    assert_eq!(q.pop_due(20).unwrap().id, 2);
    assert!(q.is_empty());
}

#[test]
fn full_queue_refuses_a_new_event() {
    let mut q: EventQueue<2> = EventQueue::new();
    for id in 0..2u32 {
        q.push(ScheduledEvent {
            fire_at_tick: 5,
            action: EventAction::SetSection(Section::Intro),
            id,
        })
        .unwrap();
    }
    let extra = ScheduledEvent {
        fire_at_tick: 1,
        action: EventAction::SetSection(Section::Drop),
        id: 9,
    };
    assert_eq!(q.push(extra), Err(ScheduleError::Full));
    assert_eq!(q.len(), 2);
}

#[test]
fn same_id_replaces_the_earlier_event() {
    let mut q: EventQueue<4> = EventQueue::new();
    q.push(ScheduledEvent {
        fire_at_tick: 50,
        action: EventAction::SetSection(Section::Drop),
        id: 3,
    })
    .unwrap();
    q.push(ScheduledEvent {
        fire_at_tick: 30,
        action: EventAction::SetSection(Section::Breakdown),
        id: 3,
    })
    .unwrap();
    assert_eq!(q.len(), 1);
    let popped = q.pop_due(40).unwrap();
    assert_eq!(popped.fire_at_tick, 30);
    assert_eq!(popped.action, EventAction::SetSection(Section::Breakdown));
}
