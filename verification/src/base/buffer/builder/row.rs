//! One row of a buffer layout: cells of text and runs of skipped columns.
use vstd::prelude::*;

use crate::style::Style;

verus! {

/// An item of a row: a cell of text with its style, or `n` skipped columns.
pub enum BuilderRowItem {
    Cell(&'static str, Style),
    Empty(u16),
}

impl BuilderRowItem {
    /// How many columns the item takes.
    pub open spec fn spec_consumed(&self) -> int {
        match self {
            BuilderRowItem::Cell(_, _) => 1,
            BuilderRowItem::Empty(skipped) => *skipped as int,
        }
    }

    /// How many columns the item takes: one for a cell, `n` for `Empty(n)`.
    pub fn consumed(&self) -> (n: u16)
        ensures
            n == self.spec_consumed(),
    {
        match self {
            BuilderRowItem::Cell(_, _) => 1,
            BuilderRowItem::Empty(skipped) => *skipped,
        }
    }
}

/// The columns the first `n` items take together.
pub open spec fn spec_consumed_total(items: Seq<BuilderRowItem>, n: int) -> int
    decreases n,
{
    if n <= 0 {
        0
    } else {
        spec_consumed_total(items, n - 1) + items[n - 1].spec_consumed()
    }
}

proof fn lemma_consumed_total_monotonic(items: Seq<BuilderRowItem>, i: int, j: int)
    requires
        0 <= i <= j <= items.len(),
    ensures
        spec_consumed_total(items, i) <= spec_consumed_total(items, j),
    decreases j - i,
{
    if i < j {
        lemma_consumed_total_monotonic(items, i, j - 1);
    }
}

/// The columns all `items` take together.
pub fn consumed_counter(items: &[BuilderRowItem]) -> (consumed: u16)
    requires
        spec_consumed_total(items@, items@.len() as int) <= u16::MAX,
    ensures
        consumed == spec_consumed_total(items@, items@.len() as int),
{
    let mut i: usize = 0;
    let mut consumed: u16 = 0;
    while i < items.len()
        invariant
            i <= items@.len(),
            consumed == spec_consumed_total(items@, i as int),
            spec_consumed_total(items@, items@.len() as int) <= u16::MAX,
        decreases items@.len() - i,
    {
        proof {
            lemma_consumed_total_monotonic(items@, i + 1, items@.len() as int);
        }
        consumed += items[i].consumed();
        i += 1;
    }
    consumed
}

/// A row of a buffer layout and the columns it takes.
pub struct BuilderRow {
    pub consumed: u16,
    pub items: Vec<BuilderRowItem>,
}

impl BuilderRow {
    /// The row made of `items`.
    pub fn new(items: Vec<BuilderRowItem>) -> (row: BuilderRow)
        requires
            spec_consumed_total(items@, items@.len() as int) <= u16::MAX,
        ensures
            row.items@ == items@,
            row.consumed == spec_consumed_total(items@, items@.len() as int),
    {
        let consumed = consumed_counter(items.as_slice());
        BuilderRow { consumed, items }
    }
}

} // verus!
