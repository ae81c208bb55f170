use vstd::prelude::*;

use crate::assoc::Assoc;

verus! {

/// The percentage shown for `key`, `0` when none is shown yet.
pub open spec fn shown_value(shown: Map<Seq<char>, i32>, key: Seq<char>) -> i32 {
    if shown.contains_key(key) { shown[key] } else { 0 }
}

/// The texts of the keys, with the values, of a list of entries.
pub open spec fn entry_texts(s: Seq<(String, i32)>) -> Seq<(Seq<char>, i32)> {
    s.map_values(|e: (String, i32)| (e.0@, e.1))
}

/// Going through the reported progress in order: a file's display moves
/// forward to its reported percentage (to `100` once all conversions have
/// finished) when that is more than what it shows; gives the new display
/// and the changes to make, in order.
pub open spec fn refresh(
    shown: Map<Seq<char>, i32>,
    reported: Seq<(Seq<char>, i32)>,
    finished: bool,
) -> (Map<Seq<char>, i32>, Seq<(Seq<char>, i32)>)
    decreases reported.len(),
{
    if reported.len() == 0 {
        (shown, Seq::empty())
    } else {
        let (m, changes) = refresh(shown, reported.drop_last(), finished);
        let key = reported.last().0;
        let target: i32 = if finished { 100 } else { reported.last().1 };
        if target > shown_value(m, key) {
            (m.insert(key, target), changes.push((key, target)))
        } else {
            (m, changes)
        }
    }
}

/// Brings the displayed progress up to date with the reported progress of
/// the conversions, as `refresh` states; gives the changes to make to the
/// display, in order.
pub fn refresh_progress_view(shown: &mut Assoc<i32>, reported: &[(String, i32)], finished: bool) -> (changes: Vec<
    (String, i32),
>)
    ensures
        (final(shown).view(), entry_texts(changes@)) == refresh(
            old(shown).view(),
            entry_texts(reported@),
            finished,
        ),
{
    let mut changes: Vec<(String, i32)> = Vec::new();
    let mut i: usize = 0;
    while i < reported.len()
        invariant
            i <= reported@.len(),
            (shown.view(), entry_texts(changes@)) == refresh(
                old(shown).view(),
                entry_texts(reported@.take(i as int)),
                finished,
            ),
        decreases reported@.len() - i,
    {
        let key = &reported[i].0;
        let target: i32 = if finished { 100 } else { reported[i].1 };
        let prev = match shown.get(key.as_str()) {
            Some(v) => v,
            None => 0,
        };
        let ghost before_changes = entry_texts(changes@);
        proof {
            assert(entry_texts(reported@.take(i + 1)).drop_last() =~= entry_texts(reported@.take(i as int)));
            assert(entry_texts(reported@.take(i + 1)).last() == (key@, reported@[i as int].1));
        }
        if target > prev {
            shown.insert(key.clone(), target);
            changes.push((key.clone(), target));
            assert(entry_texts(changes@) =~= before_changes.push((key@, target)));
        }
        i += 1;
    }
    assert(reported@.take(reported@.len() as int) =~= reported@);
    changes
}

} // verus!
