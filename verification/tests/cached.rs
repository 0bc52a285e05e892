use std::cell::Cell;
use std::rc::Rc;

use mb_tui::render::cached::CachedLayoutRenderable;
use mb_tui::render::layout::{Constraints, Size};

struct CountingLayoutRenderable {
    calls: Rc<Cell<u16>>,
}

fn counting_measure(r: &CountingLayoutRenderable, constraints: Constraints) -> Size {
    r.calls.set(r.calls.get() + 1);
    constraints.constrain(Size::new(5, 3))
}

#[test]
fn cached_layout_renderable_reuses_measure_for_identical_constraints() {
    let calls = Rc::new(Cell::new(0));
    let mut cached = CachedLayoutRenderable::new(CountingLayoutRenderable {
        calls: Rc::clone(&calls),
    });

    assert_eq!(
        cached.measure(Constraints::loose(10, 10), &counting_measure),
        Size::new(5, 3)
    );
    assert_eq!(
        cached.measure(Constraints::loose(10, 10), &counting_measure),
        Size::new(5, 3)
    );
    assert_eq!(calls.get(), 1);
}

#[test]
fn cached_layout_renderable_invalidates_when_constraints_change() {
    let calls = Rc::new(Cell::new(0));
    let mut cached = CachedLayoutRenderable::new(CountingLayoutRenderable {
        calls: Rc::clone(&calls),
    });

    cached.measure(Constraints::loose(10, 10), &counting_measure);
    cached.measure(Constraints::loose(12, 10), &counting_measure);
    assert_eq!(calls.get(), 2);
}

#[test]
fn cached_size_follows_the_latest_constraints() {
    let calls = Rc::new(Cell::new(0));
    let mut cached = CachedLayoutRenderable::new(CountingLayoutRenderable {
        calls: Rc::clone(&calls),
    });
    assert_eq!(
        cached.measure(Constraints::loose(4, 2), &counting_measure),
        Size::new(4, 2)
    );
    assert_eq!(
        cached.measure(Constraints::loose(10, 10), &counting_measure),
        Size::new(5, 3)
    );
    assert_eq!(
        cached.measure(Constraints::loose(4, 2), &counting_measure),
        Size::new(4, 2)
    );
    assert_eq!(calls.get(), 3);
}
