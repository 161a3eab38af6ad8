//! Lists of named values, read as maps.

use crate::text;
use vstd::prelude::*;

verus! {

/// What a list of named values holds under each name: the last value given.
pub open spec fn last_values<T>(lines: Seq<(Seq<char>, T)>) -> Map<Seq<char>, T>
    decreases lines.len(),
{
    if lines.len() == 0 {
        Map::empty()
    } else {
        last_values(lines.drop_last()).insert(lines.last().0, lines.last().1)
    }
}

/// No name stands in the list twice.
pub open spec fn names_once<T>(lines: Seq<(Seq<char>, T)>) -> bool {
    forall|i: int, j: int|
        0 <= i < j < lines.len() ==> (#[trigger] lines[i]).0 != (#[trigger] lines[j]).0
}

/// A value with a name.
pub trait Named: Sized {
    /// What the value is modelled by.
    type Model;

    /// The name and the model of the value.
    spec fn entry(&self) -> (Seq<char>, Self::Model);

    /// The name.
    fn name(&self) -> (r: &str)
        ensures
            r@ == self.entry().0,
    ;
}

/// The names and models of a list of named values.
pub open spec fn entries<T: Named>(items: Seq<T>) -> Seq<(Seq<char>, T::Model)> {
    items.map_values(|item: T| item.entry())
}

/// Gives a name its value: in the place of the value that it has, else behind the
/// list.
pub fn put<T: Named>(items: &mut Vec<T>, item: T)
    requires
        names_once(entries(old(items)@)),
    ensures
        names_once(entries(final(items)@)),
        last_values(entries(final(items)@)) == last_values(entries(old(items)@)).insert(
            item.entry().0,
            item.entry().1,
        ),
{
    let ghost before = entries(items@);
    let ghost (name, model) = item.entry();
    let mut i: usize = 0;
    while i < items.len()
        invariant
            i <= items.len(),
            items@ == old(items)@,
            before == entries(items@),
            (name, model) == item.entry(),
            names_once(before),
            forall|j: int| 0 <= j < i ==> (#[trigger] before[j]).0 != name,
        decreases items.len() - i,
    {
        if text::same_text(items[i].name(), item.name()) {
            proof {
                assert(before[i as int].0 == name);
                lemma_value_replaced(before, i as int, model);
            }
            items.set(i, item);
            assert(entries(items@) =~= before.update(i as int, (name, model)));
            return;
        }
        i += 1;
    }
    proof {
        lemma_value_added(before, name, model);
    }
    items.push(item);
    assert(entries(items@) =~= before.push((name, model)));
}

/// What a list holds under a name that stands in it.
pub proof fn lemma_last_value<T>(lines: Seq<(Seq<char>, T)>, i: int)
    requires
        names_once(lines),
        0 <= i < lines.len(),
    ensures
        last_values(lines).contains_key(lines[i].0),
        last_values(lines)[lines[i].0] == lines[i].1,
    decreases lines.len(),
{
    if i < lines.len() - 1 {
        lemma_last_value(lines.drop_last(), i);
        assert(lines[i].0 != lines[lines.len() - 1].0);
    }
}

/// A name that a list holds a value for stands in it.
pub proof fn lemma_name_stands<T>(lines: Seq<(Seq<char>, T)>, name: Seq<char>) -> (i: int)
    requires
        last_values(lines).contains_key(name),
    ensures
        0 <= i < lines.len(),
        lines[i].0 == name,
    decreases lines.len(),
{
    if lines.last().0 == name {
        lines.len() - 1
    } else {
        lemma_name_stands(lines.drop_last(), name)
    }
}

/// Giving the name at one place another value changes the value under that name
/// and nothing else.
pub proof fn lemma_value_replaced<T>(lines: Seq<(Seq<char>, T)>, i: int, value: T)
    requires
        names_once(lines),
        0 <= i < lines.len(),
    ensures
        names_once(lines.update(i, (lines[i].0, value))),
        last_values(lines.update(i, (lines[i].0, value))) == last_values(lines).insert(
            lines[i].0,
            value,
        ),
{
    let after = lines.update(i, (lines[i].0, value));
    assert forall|j: int, k: int| 0 <= j < k < after.len() implies (#[trigger] after[j]).0 != (
    #[trigger] after[k]).0 by {
        assert(lines[j].0 != lines[k].0);
    }
    let expected = last_values(lines).insert(lines[i].0, value);
    assert forall|name: Seq<char>| #[trigger]
        last_values(after).contains_key(name) == expected.contains_key(name) by {
        if last_values(after).contains_key(name) {
            let j = lemma_name_stands(after, name);
            lemma_last_value(lines, j);
        }
        if expected.contains_key(name) && name != lines[i].0 {
            let j = lemma_name_stands(lines, name);
            lemma_last_value(after, j);
        }
        lemma_last_value(after, i);
    }
    assert forall|name: Seq<char>| last_values(after).contains_key(name) implies #[trigger] last_values(
        after,
    )[name] == expected[name] by {
        let j = lemma_name_stands(after, name);
        lemma_last_value(after, j);
        lemma_last_value(lines, j);
        lemma_last_value(after, i);
    }
    assert(last_values(after) =~= expected);
}

/// What is put behind a list counts for its name.
pub proof fn lemma_value_added<T>(lines: Seq<(Seq<char>, T)>, name: Seq<char>, value: T)
    requires
        names_once(lines),
        forall|j: int| 0 <= j < lines.len() ==> (#[trigger] lines[j]).0 != name,
    ensures
        names_once(lines.push((name, value))),
        last_values(lines.push((name, value))) == last_values(lines).insert(name, value),
{
    assert(lines.push((name, value)).drop_last() =~= lines);
}

/// Under a name stands the value that it was given last.
pub proof fn law_last_value_stands<T>(lines: Seq<(Seq<char>, T)>, i: int)
    requires
        0 <= i < lines.len(),
        forall|j: int| i < j < lines.len() ==> (#[trigger] lines[j]).0 != lines[i].0,
    ensures
        last_values(lines).contains_key(lines[i].0),
        last_values(lines)[lines[i].0] == lines[i].1,
    decreases lines.len(),
{
    if i < lines.len() - 1 {
        let rest = lines.drop_last();
        assert forall|j: int| i < j < rest.len() implies (#[trigger] rest[j]).0 != rest[i].0 by {
            assert(lines[j].0 != lines[i].0);
        }
        law_last_value_stands(rest, i);
        assert(lines[lines.len() - 1].0 != lines[i].0);
    }
}

/// A list of named values is modelled one by one.
pub proof fn law_entries_are_modelled_one_by_one<T: Named>(items: Seq<T>)
    ensures
        entries(items).len() == items.len(),
        forall|i: int| 0 <= i < items.len() ==> (#[trigger] entries(items)[i]) == items[i].entry(),
{
}

} // verus!
