use std::cell::Cell;
use std::cell::RefCell;
use std::rc::Rc;

use fallible_iter::Combine;
use fallible_iter::Iterrator;
use fallible_iter::IterratorExt;
use fallible_iter::Transform;

/// A source whose every step fails.
struct FailIterator;

impl Iterrator for FailIterator {
    type Item = usize;
    type Error = ();

    fn head(&self) -> Result<Option<usize>, ()> {
        Err(())
    }

    fn tail(&self) -> Self {
        FailIterator
    }

    fn next(&mut self) -> Result<Option<Self::Item>, Self::Error> {
        Err(())
    }
}

/// A source yielding 1, 2, 3, ... without end.
struct NumbersIterator(usize);

impl Iterrator for NumbersIterator {
    type Item = usize;
    type Error = ();

    fn head(&self) -> Result<Option<usize>, ()> {
        Ok(Some(self.0 + 1))
    }

    fn tail(&self) -> Self {
        NumbersIterator(self.0 + 1)
    }

    fn next(&mut self) -> Result<Option<Self::Item>, Self::Error> {
        let n = &mut self.0;
        *n += 1;
        Ok(Some(*n))
    }
}

/// Sums the accumulator with the element.
struct AddCombine;

impl Combine<usize, usize> for AddCombine {
    fn spec_combine(&self, acc: usize, x: usize) -> usize {
        acc + x
    }

    fn combine(&self, acc: usize, x: usize) -> usize {
        acc + x
    }
}

/// A combining function that must never be reached.
struct NeverCombine;

impl Combine<usize, usize> for NeverCombine {
    fn spec_combine(&self, acc: usize, _x: usize) -> usize {
        acc
    }

    fn combine(&self, _acc: usize, _x: usize) -> usize {
        panic!("the combining function was invoked");
    }
}

/// Doubles each element.
struct Double;

impl Transform<usize> for Double {
    type Output = usize;

    fn spec_apply(&self, x: usize) -> usize {
        x * 2
    }

    fn apply(&self, x: usize) -> usize {
        x * 2
    }
}

/// Records every element it is applied to, in order.
struct Recorder {
    seen: Rc<RefCell<Vec<usize>>>,
}

impl Transform<usize> for Recorder {
    type Output = usize;

    fn spec_apply(&self, x: usize) -> usize {
        x
    }

    fn apply(&self, x: usize) -> usize {
        self.seen.borrow_mut().push(x);
        x
    }
}

/// Yields 1, ..., k then ends, counting how often it is queried.
struct CountedNumbers {
    next_value: usize,
    limit: usize,
    queries: Rc<Cell<usize>>,
}

impl CountedNumbers {
    fn new(limit: usize, queries: &Rc<Cell<usize>>) -> Self {
        CountedNumbers { next_value: 0, limit, queries: Rc::clone(queries) }
    }
}

impl Iterrator for CountedNumbers {
    type Item = usize;
    type Error = ();

    fn head(&self) -> Result<Option<usize>, ()> {
        if self.next_value < self.limit {
            Ok(Some(self.next_value + 1))
        } else {
            Ok(None)
        }
    }

    fn tail(&self) -> Self {
        CountedNumbers {
            next_value: (self.next_value + 1).min(self.limit),
            limit: self.limit,
            queries: Rc::clone(&self.queries),
        }
    }

    fn next(&mut self) -> Result<Option<Self::Item>, Self::Error> {
        self.queries.set(self.queries.get() + 1);
        if self.next_value < self.limit {
            self.next_value += 1;
            Ok(Some(self.next_value))
        } else {
            Ok(None)
        }
    }
}

#[test]
fn fold_fail() {
    let it = FailIterator;
    assert_eq!(it.fold(0, AddCombine), Err(()));
}

#[test]
fn sum() {
    let it = NumbersIterator(0);
    assert_eq!(it.take(5).fold(0, AddCombine), Ok(15));
}

#[test]
fn adaptor_construction_is_lazy() {
    let queries = Rc::new(Cell::new(0));
    let seen = Rc::new(RefCell::new(Vec::new()));
    let source = CountedNumbers::new(5, &queries);
    let _chain = source.take(3).map(Recorder { seen: Rc::clone(&seen) });
    assert_eq!(queries.get(), 0);
    assert!(seen.borrow().is_empty());
}

#[test]
fn take_bound_reached_first() {
    let queries = Rc::new(Cell::new(0));
    let mut it = CountedNumbers::new(5, &queries).take(3);
    assert_eq!(it.next(), Ok(Some(1)));
    assert_eq!(it.next(), Ok(Some(2)));
    assert_eq!(it.next(), Ok(Some(3)));
    assert_eq!(it.next(), Ok(None));
    assert_eq!(it.next(), Ok(None));
    assert_eq!(queries.get(), 3);
}

#[test]
fn take_source_ends_first() {
    let queries = Rc::new(Cell::new(0));
    let mut it = CountedNumbers::new(2, &queries).take(5);
    assert_eq!(it.next(), Ok(Some(1)));
    assert_eq!(it.next(), Ok(Some(2)));
    assert_eq!(it.next(), Ok(None));
}

#[test]
fn take_zero_never_queries_the_source() {
    let queries = Rc::new(Cell::new(0));
    let mut it = CountedNumbers::new(5, &queries).take(0);
    assert_eq!(it.next(), Ok(None));
    assert_eq!(it.next(), Ok(None));
    assert_eq!(it.next(), Ok(None));
    assert_eq!(queries.get(), 0);
}

#[test]
fn map_applies_in_order_and_only_to_values() {
    let seen = Rc::new(RefCell::new(Vec::new()));
    let queries = Rc::new(Cell::new(0));
    let mut it = CountedNumbers::new(3, &queries).map(Recorder { seen: Rc::clone(&seen) });
    assert_eq!(it.next(), Ok(Some(1)));
    assert_eq!(it.next(), Ok(Some(2)));
    assert_eq!(it.next(), Ok(Some(3)));
    assert_eq!(it.next(), Ok(None));
    assert_eq!(it.next(), Ok(None));
    assert_eq!(*seen.borrow(), vec![1, 2, 3]);
}

#[test]
fn map_passes_errors_through_untouched() {
    let seen = Rc::new(RefCell::new(Vec::new()));
    let mut it = FailIterator.map(Recorder { seen: Rc::clone(&seen) });
    assert_eq!(it.next(), Err(()));
    assert_eq!(it.next(), Err(()));
    assert!(seen.borrow().is_empty());
}

#[test]
fn fold_short_circuits_without_combining() {
    let it = FailIterator;
    assert_eq!(it.fold(0, NeverCombine), Err(()));
}

#[test]
fn composition_sums_doubled_prefix() {
    let queries = Rc::new(Cell::new(0));
    let source = CountedNumbers::new(5, &queries);
    assert_eq!(source.take(3).map(Double).fold(0, AddCombine), Ok(12));
    assert_eq!(queries.get(), 3);
}

#[test]
fn closed_take_stays_closed() {
    let queries = Rc::new(Cell::new(0));
    let mut it = CountedNumbers::new(5, &queries).take(2);
    assert_eq!(it.next(), Ok(Some(1)));
    assert_eq!(it.next(), Ok(Some(2)));
    for _ in 0..4 {
        assert_eq!(it.next(), Ok(None));
    }
    assert_eq!(queries.get(), 2);
}

#[test]
fn take_passes_inner_end_through_and_stays_callable() {
    let queries = Rc::new(Cell::new(0));
    let mut it = CountedNumbers::new(1, &queries).take(3);
    assert_eq!(it.next(), Ok(Some(1)));
    assert_eq!(it.next(), Ok(None));
    assert_eq!(it.next(), Ok(None));
}

#[test]
fn take_passes_errors_through() {
    let mut it = FailIterator.take(2);
    assert_eq!(it.next(), Err(()));
    assert_eq!(it.next(), Err(()));
    assert_eq!(it.next(), Ok(None));
}
