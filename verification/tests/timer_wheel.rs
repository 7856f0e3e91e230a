use cardinal3::executor::WakerData;
use cardinal3::timer::{Timer, insert_at, ticks_for, timestamp};

fn w(id: u64) -> WakerData {
    WakerData { cpu: 0, id }
}

#[test]
fn ticks_are_milliseconds() {
    assert_eq!(ticks_for(0), 0);
    assert_eq!(ticks_for(999), 0);
    assert_eq!(ticks_for(1000), 1);
    assert_eq!(ticks_for(2500), 2);
}

#[test]
fn tick_fires_due_events_in_deadline_order() {
    let mut t = Timer::new();
    assert_eq!(timestamp(&t), 0);
    t.raw_insert(2, w(20));
    t.raw_insert(1, w(10));
    t.raw_insert(3, w(30));
    let fired = t.tick(); // now 1
    assert_eq!(fired.len(), 1);
    assert_eq!(fired[0].id, 10);
    let fired = t.tick(); // now 2
    assert_eq!(fired.len(), 1);
    assert_eq!(fired[0].id, 20);
    let fired = t.tick(); // now 3
    assert_eq!(fired.len(), 1);
    assert_eq!(fired[0].id, 30);
    assert_eq!(t.tick().len(), 0);
}

#[test]
fn sleep_ordering_ignores_registration_order() {
    // durations d1 < d2 < d3 registered in scrambled order wake in
    // duration order
    let mut t = Timer::new();
    t.insert(3000, w(3));
    t.insert(1000, w(1));
    t.insert(2000, w(2));
    let mut order = Vec::new();
    for _ in 0..5 {
        for f in t.tick() {
            order.push(f.id);
        }
    }
    assert_eq!(order, vec![1, 2, 3]);
}

#[test]
fn same_deadline_fires_in_insertion_order() {
    let mut t = Timer::new();
    t.raw_insert(5, w(100));
    t.raw_insert(5, w(200));
    t.raw_insert(5, w(300));
    let mut fired = Vec::new();
    for _ in 0..5 {
        for f in t.tick() {
            fired.push(f.id);
        }
    }
    assert_eq!(fired, vec![100, 200, 300]);
}

#[test]
fn insert_at_takes_an_absolute_deadline() {
    let mut t = Timer::new();
    let _ = t.tick();
    let _ = t.tick(); // now 2
    insert_at(&mut t, 3, w(7));
    assert_eq!(t.tick()[0].id, 7);
}
