use vstd::prelude::*;
use std::rc::Rc;

verus! {

/// A box of our own that gives access to the value it holds.
pub struct MyBox<T>(T);

impl<T> MyBox<T> {
    pub closed spec fn inner(&self) -> T {
        self.0
    }

    pub fn new(x: T) -> (r: MyBox<T>)
        ensures
            r.inner() == x,
    {
        MyBox(x)
    }
}

impl<T> std::ops::Deref for MyBox<T> {
    type Target = T;

    fn deref(&self) -> (r: &T)
        ensures
            *r == self.inner(),
    {
        &self.0
    }
}

/// A value with some data, used to show when values are dropped.
pub struct CustomerSmartPointer {
    pub data: String,
}

/// A sink for the warnings that a `LimitTracker` sends.
pub trait Messages {
    fn send(&self, msg: &str);
}

/// The warning for a usage of `value` out of a quota of `max`, if one is due:
/// at 100% and above, at 90% and above, and at 75% and above. An empty quota
/// with no usage calls for no warning.
pub open spec fn quota_warning(value: int, max: int) -> Option<Seq<char>> {
    if value == 0 && max == 0 {
        None
    } else if value >= max {
        Some("Error: You are over your quota!"@)
    } else if 10 * value >= 9 * max {
        Some("Urgent warning: You've used up over 90% of your quota!"@)
    } else if 4 * value >= 3 * max {
        Some("Warning: You've used up over 75% of your quota!"@)
    } else {
        None
    }
}

/// The warning for a usage of `value` out of `max`, if one is due.
pub fn quota_message(value: usize, max: usize) -> (r: Option<&'static str>)
    ensures
        match r {
            Some(m) => quota_warning(value as int, max as int) == Some(m@),
            None => quota_warning(value as int, max as int) is None,
        },
{
    proof {
        reveal_strlit("Error: You are over your quota!");
        reveal_strlit("Urgent warning: You've used up over 90% of your quota!");
        reveal_strlit("Warning: You've used up over 75% of your quota!");
    }
    let v = value as u128;
    let m = max as u128;
    if v == 0 && m == 0 {
        None
    } else if v >= m {
        Some("Error: You are over your quota!")
    } else if 10 * v >= 9 * m {
        Some("Urgent warning: You've used up over 90% of your quota!")
    } else if 4 * v >= 3 * m {
        Some("Warning: You've used up over 75% of your quota!")
    } else {
        None
    }
}

/// Tracks a usage against a quota and reports crossings to a messenger.
pub struct LimitTracker<'a, T: Messages> {
    pub value: usize,
    pub max: usize,
    pub message: &'a T,
}

impl<'a, T: Messages> LimitTracker<'a, T> {
    pub fn new(message: &'a T, max: usize) -> (r: LimitTracker<'a, T>)
        ensures
            r.value == 0,
            r.max == max,
            r.message == message,
    {
        LimitTracker { value: 0, max, message }
    }

    /// Records a new usage and sends the warning that `quota_message` gives
    /// for it, if any.
    pub fn set_value(&mut self, value: usize)
        ensures
            final(self).value == value,
            final(self).max == old(self).max,
            final(self).message == old(self).message,
    {
        self.value = value;
        match quota_message(self.value, self.max) {
            Some(m) => self.message.send(m),
            None => {},
        }
    }
}

/// The value computed for `index` when the cache holds `len` values: the sum
/// of `2 * x` for `x` below `len`, plus `index`.
pub open spec fn computed_value(len: int, index: int) -> int {
    len * (len - 1) + index
}

/// A calculator that caches the values it computes.
pub struct ExpensiveCalculator {
    pub cache: Vec<u32>,
}

impl ExpensiveCalculator {
    /// The cached value at `index` if there is one; else computes one from
    /// the size of the cache, appends it, and returns it.
    pub fn get_value(&mut self, index: usize) -> (r: u32)
        requires
            index >= old(self).cache@.len() ==> computed_value(
                old(self).cache@.len() as int,
                index as int,
            ) <= u32::MAX,
        ensures
            index < old(self).cache@.len() ==> r == old(self).cache@[index as int]
                && final(self).cache@ == old(self).cache@,
            index >= old(self).cache@.len() ==> r == computed_value(
                old(self).cache@.len() as int,
                index as int,
            ) && final(self).cache@ == old(self).cache@.push(r),
    {
        if index < self.cache.len() {
            return self.cache[index];
        }
        let length = self.cache.len() as u64;
        let mut total: u64 = 0;
        let mut x: u64 = 0;
        while x < length
            invariant
                x <= length,
                length == self.cache@.len(),
                total == x * (x - 1),
                computed_value(length as int, index as int) <= u32::MAX,
            decreases length - x,
        {
            assert((x + 1) * x == x * (x - 1) + 2 * x) by (nonlinear_arith);
            assert((x + 1) * x <= length * (length - 1)) by (nonlinear_arith)
                requires
                    x + 1 <= length,
            ;
            assert(2 * x <= (x + 1) * x + 1) by (nonlinear_arith);
            total = total + 2 * x;
            x = x + 1;
        }
        let value = (total + index as u64) as u32;
        self.cache.push(value);
        value
    }
}

/// A list whose tail is shared through reference counting.
pub enum List {
    Cons(i32, Rc<List>),
    Nil,
}

impl List {
    /// The rest of the list after its first value, if it has one.
    pub fn tail(&self) -> (r: Option<&Rc<List>>)
        ensures
            match self {
                List::Cons(_, t) => r == Some(t),
                List::Nil => r is None,
            },
    {
        match self {
            List::Cons(_, item) => Some(item),
            List::Nil => None,
        }
    }
}

} // verus!
