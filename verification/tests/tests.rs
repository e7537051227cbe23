use std::cell::{Cell, RefCell};
use std::rc::Rc;
use thunk_simple::Thunk;

#[test]
fn thunk_new() {
    let external_state = Rc::new(RefCell::new(true));
    let external_state_ptr = Rc::clone(&external_state);
    let thunk = Thunk::new(move || {
        *external_state_ptr.borrow_mut() = false;
        "Output"
    });
    assert_eq!(
        *external_state.borrow(),
        true,
        "Thunk modified external state before its unwrapping"
    );
    assert_eq!(thunk.unwrap(), "Output", "Thunk output wrong string");
    assert_eq!(
        *external_state.borrow(),
        false,
        "Thunk didn't modify state after its unwrapping"
    );
}

#[test]
fn thunk_new_const() {
    assert_eq!(
        Thunk::new_const(true).unwrap(),
        true,
        "Thunk returned wrong value"
    );
}

#[test]
fn thunk_map() {
    let thunk = Thunk::new_const("Output");
    let thunk = thunk.map(|val| &val[1..5]);
    assert_eq!(
        thunk.unwrap(),
        "utpu",
        "Thunk did not correctly apply mapping function"
    );
}

#[test]
#[should_panic]
fn thunk_map_panic() {
    let thunk_dangerous = Thunk::new_const(true);
    assert_eq!(thunk_dangerous.map(|v| v || false).unwrap(), false);
}

#[test]
fn thunk_map_lazy() {
    let thunk = Thunk::new_const("Output");
    let thunk = thunk.map_lazy(|val| &(val.unwrap()[1..5]));
    assert_eq!(
        thunk.unwrap(),
        "utpu",
        "Thunk did not correctly apply lazy mapping function"
    );

    let thunk_dangerous = Thunk::new_const(true);
    // Doesn't panic because original thunk is never unwrapped
    let thunk_safe = thunk_dangerous.map_lazy(|_| false);
    assert_eq!(thunk_safe.unwrap(), false, "Thunk returned wrong value");
}

#[test]
#[should_panic]
fn thunk_map_lazy_panic() {
    let thunk_dangerous = Thunk::new_const(true);
    // Panics, because it unwraps previous thunk
    assert_eq!(
        thunk_dangerous.map_lazy(|prev_val| prev_val.unwrap() || false).unwrap(),
        false
    );
}

#[test]
fn thunk_from_iter() {
    let thunk = Thunk::<u32, ()>::from(vec![1, 2, 3].into_iter());
    assert_eq!(
        thunk.unwrap(),
        1,
        "Thunk did not correctly convert iterator into itself"
    );
    // Should not panic because thunk is never unwrapped
    let thunk_potential_panic = Thunk::<u32, ()>::from(vec![].into_iter());
    let thunk_now_safe = thunk_potential_panic.map_lazy(|_| true);
    assert_eq!(
        thunk_now_safe.unwrap(),
        true,
        "Thunk did not return correct value"
    );
}

#[test]
#[should_panic]
fn thunk_from_iter_panic() {
    let thunk = Thunk::<u32, ()>::from(vec![].into_iter());
    thunk.unwrap();
}

#[test]
fn thunk_into_iter() {
    let thunk = Thunk::new_const(true);
    let mut iter = thunk.into_iter();
    let mut collected_vec: Vec<bool> = Vec::new();
    for _ in 0..3 {
        if let Some(v) = iter.next() {
            collected_vec.push(v);
        }
    }
    assert_eq!(collected_vec, vec![true]);

    let thunk_identity = Thunk::new_const(true);
    let reformed_thunk = Thunk::from_head(thunk_identity.into_iter());
    assert_eq!(reformed_thunk.unwrap(), true, "Thunk returned wrong value");
}

// An iterator that counts how many elements have been pulled from it.
struct CountingIter {
    items: Vec<u32>,
    next_index: usize,
    pulls: Rc<Cell<usize>>,
}

impl Iterator for CountingIter {
    type Item = u32;

    fn next(&mut self) -> Option<u32> {
        self.pulls.set(self.pulls.get() + 1);
        let item = self.items.get(self.next_index).copied();
        self.next_index += 1;
        item
    }
}

#[test]
fn from_iter_pulls_exactly_one_element() {
    let pulls = Rc::new(Cell::new(0));
    let iter = CountingIter { items: vec![1, 2, 3], next_index: 0, pulls: Rc::clone(&pulls) };
    let thunk = Thunk::from(iter);
    assert_eq!(pulls.get(), 0, "construction must not pull from the sequence");
    assert_eq!(thunk.unwrap(), 1);
    assert_eq!(pulls.get(), 1, "only the head of the sequence may be consumed");
}

#[test]
fn computation_runs_exactly_once_and_only_when_forced() {
    let runs = Rc::new(Cell::new(0));
    let runs_ptr = Rc::clone(&runs);
    let thunk = Thunk::new(move || {
        runs_ptr.set(runs_ptr.get() + 1);
        42
    });
    let thunk = thunk.map(|x| x + 1);
    assert_eq!(runs.get(), 0, "no computation may run before forcing");
    assert_eq!(thunk.unwrap(), 43);
    assert_eq!(runs.get(), 1, "the computation must run exactly once");
}

#[test]
fn into_iter_exhaustion_is_permanent() {
    let thunk = Thunk::new_const(true);
    let mut iter = thunk.into_iter();
    assert_eq!(iter.next(), Some(true));
    assert_eq!(iter.next(), None);
    assert_eq!(iter.next(), None, "exhaustion must be idempotent");
}

#[test]
fn round_trip_preserves_forced_value() {
    let x = 31u64;
    let rebuilt = Thunk::from_head(Thunk::new_const(x).into_iter());
    assert_eq!(rebuilt.unwrap(), x);
}

#[test]
fn three_maps_equal_one_composed_map() {
    let a = |x: i64| x + 1;
    let b = |x: i64| x * 2;
    let c = |x: i64| x - 3;
    let chained = Thunk::new_const(5i64).map(a).map(b).map(c);
    let composed = Thunk::new_const(5i64).map(|x| c(b(a(x))));
    let chained_value = chained.unwrap();
    assert_eq!(chained_value, composed.unwrap());
    assert_eq!(chained_value, 9);
}

#[test]
fn map_lazy_can_discard_a_failing_predecessor() {
    let empty = Thunk::<u32, ()>::from(vec![].into_iter());
    let safe = empty.map_lazy(|_| true);
    assert_eq!(safe.unwrap(), true);
}
