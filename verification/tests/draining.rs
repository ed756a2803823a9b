use growvec::Vec;
use std::cell::Cell;
use std::rc::Rc;

#[test]
fn forward_drain_yields_original_order() {
    let mut v: Vec<i32> = Vec::new();
    for x in [1, 2, 3, 4] {
        v.push(x);
    }
    let mut it = v.into_iter();
    let mut seen: std::vec::Vec<i32> = std::vec::Vec::new();
    while let Some(x) = it.next() {
        seen.push(x);
    }
    assert_eq!(seen, [1, 2, 3, 4]);
    assert_eq!(it.next(), None);
}

#[test]
fn backward_drain_yields_reverse_order() {
    let mut v: Vec<i32> = Vec::new();
    for x in [1, 2, 3, 4] {
        v.push(x);
    }
    let mut it = v.into_iter();
    let mut seen: std::vec::Vec<i32> = std::vec::Vec::new();
    while let Some(x) = it.next_back() {
        seen.push(x);
    }
    assert_eq!(seen, [4, 3, 2, 1]);
    assert_eq!(it.next_back(), None);
}

#[test]
fn interleaved_drain_partitions_the_sequence() {
    let mut v: Vec<i32> = Vec::new();
    for x in [1, 2, 3, 4, 5, 6] {
        v.push(x);
    }
    let mut it = v.into_iter();
    assert_eq!(it.next(), Some(1));
    assert_eq!(it.next_back(), Some(6));
    assert_eq!(it.next(), Some(2));
    assert_eq!(it.next(), Some(3));
    assert_eq!(it.next_back(), Some(5));
    assert_eq!(it.next(), Some(4));
    assert_eq!(it.next(), None);
    assert_eq!(it.next_back(), None);
}

#[test]
fn size_hint_is_exact_while_draining() {
    let mut v: Vec<i32> = Vec::new();
    for x in [7, 8, 9] {
        v.push(x);
    }
    let mut it = v.into_iter();
    assert_eq!(it.size_hint(), (3, Some(3)));
    it.next();
    assert_eq!(it.size_hint(), (2, Some(2)));
    it.next_back();
    assert_eq!(it.size_hint(), (1, Some(1)));
    it.next();
    assert_eq!(it.size_hint(), (0, Some(0)));
}

#[test]
fn empty_container_gives_exhausted_iterator() {
    let v: Vec<i32> = Vec::new();
    let mut it = v.into_iter();
    assert_eq!(it.size_hint(), (0, Some(0)));
    assert_eq!(it.next(), None);
    assert_eq!(it.next_back(), None);
}

/// An element that counts its own destructions, so tests can observe that
/// dropping a container or iterator destructs each element exactly once.
struct Traced {
    id: i32,
    drops: Rc<Cell<usize>>,
}

impl Drop for Traced {
    fn drop(&mut self) {
        self.drops.set(self.drops.get() + 1);
    }
}

fn traced_container(n: i32, drops: &Rc<Cell<usize>>) -> Vec<Traced> {
    let mut v: Vec<Traced> = Vec::new();
    for id in 0..n {
        v.push(Traced { id, drops: Rc::clone(drops) });
    }
    v
}

#[test]
fn dropping_container_destructs_each_element_once() {
    let drops = Rc::new(Cell::new(0usize));
    let v = traced_container(5, &drops);
    assert_eq!(drops.get(), 0);
    drop(v);
    assert_eq!(drops.get(), 5);
}

#[test]
fn popped_and_removed_elements_destruct_once() {
    let drops = Rc::new(Cell::new(0usize));
    let mut v = traced_container(4, &drops);
    let popped = v.pop().unwrap();
    assert_eq!(popped.id, 3);
    drop(popped);
    assert_eq!(drops.get(), 1);
    let removed = v.remove(1);
    assert_eq!(removed.id, 1);
    drop(removed);
    assert_eq!(drops.get(), 2);
    drop(v);
    assert_eq!(drops.get(), 4);
}

#[test]
fn overwriting_an_element_destructs_the_old_one() {
    let drops = Rc::new(Cell::new(0usize));
    let mut v = traced_container(3, &drops);
    v.set(0, Traced { id: 100, drops: Rc::clone(&drops) });
    assert_eq!(drops.get(), 1);
    drop(v);
    assert_eq!(drops.get(), 4);
}

#[test]
fn dropping_partially_drained_iterator_destructs_the_rest() {
    let drops = Rc::new(Cell::new(0usize));
    let v = traced_container(6, &drops);
    let mut it = v.into_iter();
    let front = it.next().unwrap();
    assert_eq!(front.id, 0);
    let back = it.next_back().unwrap();
    assert_eq!(back.id, 5);
    drop(front);
    drop(back);
    assert_eq!(drops.get(), 2);
    drop(it);
    assert_eq!(drops.get(), 6);
}

#[test]
fn fully_drained_iterator_drops_nothing_more() {
    let drops = Rc::new(Cell::new(0usize));
    let v = traced_container(3, &drops);
    let mut it = v.into_iter();
    while let Some(x) = it.next() {
        drop(x);
    }
    assert_eq!(drops.get(), 3);
    drop(it);
    assert_eq!(drops.get(), 3);
}
