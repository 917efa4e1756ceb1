//! Laws of trimming and searching, of parsing and of navigation, stated over
//! the models.

use crate::menu::{models, ActionModel, MenuItem};
use crate::nav::{
    activated, ascended, dispatch_of, exit_word, next_of, next_times, normalized, previous_of,
    selected_item, valid_level, valid_nav, DispatchModel, LevelModel, NavModel,
};
use crate::parser::{is_parse_of, ParseError};
use crate::text::{first_index, last_index, last_pair, strip_back, strip_front, Pattern};
use vstd::prelude::*;

verus! {

/// What `strip_front` gives is the rest of `s` after its leading characters
/// that `pat` covers: all that is removed is covered, and what is left does
/// not begin with a covered character.
pub proof fn lemma_strip_front(s: Seq<char>, pat: Pattern)
    ensures
        strip_front(s, pat).len() <= s.len(),
        strip_front(s, pat) == s.subrange(s.len() - strip_front(s, pat).len(), s.len() as int),
        forall|j: int| 0 <= j < s.len() - strip_front(s, pat).len() ==> pat.accepts(s[j]),
        strip_front(s, pat).len() > 0 ==> !pat.accepts(strip_front(s, pat)[0]),
    decreases s.len(),
{
    if s.len() > 0 && pat.accepts(s[0]) {
        let t = s.drop_first();
        lemma_strip_front(t, pat);
        let k = strip_front(t, pat).len();
        assert(t.subrange(t.len() - k, t.len() as int) =~= s.subrange(s.len() - k, s.len() as int));
        assert forall|j: int| 0 <= j < s.len() - k implies pat.accepts(s[j]) by {
            if j > 0 {
                assert(s[j] == t[j - 1]);
            }
        }
    } else {
        assert(s.subrange(0, s.len() as int) =~= s);
    }
}

/// What `strip_back` gives is the start of `s` before its trailing
/// characters that `pat` covers: all that is removed is covered, and what is
/// left does not end with a covered character.
pub proof fn lemma_strip_back(s: Seq<char>, pat: Pattern)
    ensures
        strip_back(s, pat).len() <= s.len(),
        strip_back(s, pat) == s.subrange(0, strip_back(s, pat).len() as int),
        forall|j: int| strip_back(s, pat).len() <= j < s.len() ==> pat.accepts(s[j]),
        strip_back(s, pat).len() > 0 ==> !pat.accepts(strip_back(s, pat).last()),
    decreases s.len(),
{
    if s.len() > 0 && pat.accepts(s.last()) {
        let t = s.drop_last();
        lemma_strip_back(t, pat);
        let k = strip_back(t, pat).len();
        assert(t.subrange(0, k as int) =~= s.subrange(0, k as int));
        assert forall|j: int| k <= j < s.len() implies pat.accepts(s[j]) by {
            if j < t.len() {
                assert(s[j] == t[j]);
            }
        }
    } else {
        assert(s.subrange(0, s.len() as int) =~= s);
    }
}

/// `first_index` is a position of `s` or its length; no earlier character
/// is `c`, and the one at a position is.
pub proof fn lemma_first_index(s: Seq<char>, c: char)
    ensures
        0 <= first_index(s, c) <= s.len(),
        forall|j: int| 0 <= j < first_index(s, c) ==> s[j] != c,
        first_index(s, c) < s.len() ==> s[first_index(s, c)] == c,
    decreases s.len(),
{
    if s.len() > 0 && s[0] != c {
        let t = s.drop_first();
        lemma_first_index(t, c);
        assert forall|j: int| 0 <= j < first_index(s, c) implies s[j] != c by {
            if j > 0 {
                assert(s[j] == t[j - 1]);
            }
        }
    }
}

/// `last_index` is a position of `s` or `-1`; no later character is `c`, and
/// the one at a position is.
pub proof fn lemma_last_index(s: Seq<char>, c: char)
    ensures
        -1 <= last_index(s, c) < s.len(),
        forall|j: int| last_index(s, c) < j < s.len() ==> s[j] != c,
        last_index(s, c) >= 0 ==> s[last_index(s, c)] == c,
    decreases s.len(),
{
    if s.len() > 0 && s.last() != c {
        let t = s.drop_last();
        lemma_last_index(t, c);
        assert forall|j: int| last_index(s, c) < j < s.len() implies s[j] != c by {
            if j < t.len() {
                assert(s[j] == t[j]);
            }
        }
    }
}

/// `last_pair` is `-1` or a position of `s` that holds `a` with `b` right
/// after it; no later position does.
pub proof fn lemma_last_pair(s: Seq<char>, a: char, b: char)
    ensures
        -1 <= last_pair(s, a, b),
        last_pair(s, a, b) + 1 < s.len() || last_pair(s, a, b) == -1,
        last_pair(s, a, b) >= 0 ==> s[last_pair(s, a, b)] == a && s[last_pair(s, a, b) + 1] == b,
        forall|j: int|
            last_pair(s, a, b) < j && j + 1 < s.len() ==> !(#[trigger] s[j] == a && s[j + 1] == b),
    decreases s.len(),
{
    if s.len() >= 2 && !(s[s.len() - 2] == a && s.last() == b) {
        let t = s.drop_last();
        lemma_last_pair(t, a, b);
        assert forall|j: int| last_pair(s, a, b) < j && j + 1 < s.len() implies !(#[trigger] s[j]
            == a && s[j + 1] == b) by {
            if j + 1 < t.len() {
                assert(s[j] == t[j] && s[j + 1] == t[j + 1]);
            }
        }
    }
}

/// In a valid state, at every level, nothing is selected exactly if the level
/// has no items, and a selection is the index of one of its items.
pub proof fn lemma_selection_fits(m: NavModel)
    requires
        valid_nav(m),
    ensures
        m.current.selected is None <==> m.current.items.len() == 0,
        m.current.selected matches Some(i) ==> i < m.current.items.len(),
        forall|k: int|
            0 <= k < m.history.len() ==> ((#[trigger] m.history[k]).selected is None
                <==> m.history[k].items.len() == 0),
        forall|k: int|
            0 <= k < m.history.len() ==> ((#[trigger] m.history[k]).selected matches Some(i)
                ==> i < m.history[k].items.len()),
{
    assert forall|k: int| 0 <= k < m.history.len() implies ((#[trigger] m.history[k]).selected
        is None <==> m.history[k].items.len() == 0) && (m.history[k].selected matches Some(i)
        ==> i < m.history[k].items.len()) by {
        assert(valid_level(m.history[k]));
    }
}

/// After `k` moves down, with `k` no more than the number of items, the
/// selection is `k` places further, counted round the list.
pub proof fn lemma_next_steps(m: LevelModel, k: nat)
    requires
        valid_level(m),
        m.selected is Some,
        k <= m.items.len(),
    ensures
        next_times(m, k) == (LevelModel {
            title: m.title,
            items: m.items,
            selected: Some(
                if m.selected->0 + k < m.items.len() {
                    m.selected->0 + k
                } else {
                    (m.selected->0 + k - m.items.len()) as nat
                },
            ),
        }),
    decreases k,
{
    if k > 0 {
        lemma_next_steps(m, (k - 1) as nat);
    }
}

/// Moving down as many times as the level has items brings the selection
/// back to where it was.
pub proof fn lemma_next_cycle(m: LevelModel)
    requires
        valid_level(m),
        m.items.len() > 0,
    ensures
        next_times(m, m.items.len()) == m,
{
    lemma_next_steps(m, m.items.len());
}

/// Moving up undoes moving down, and moving down undoes moving up.
pub proof fn lemma_next_previous(m: LevelModel)
    requires
        valid_level(m),
    ensures
        previous_of(next_of(m)) == m,
        next_of(previous_of(m)) == m,
{
}

/// Opening a submenu and going back restores the state as it was: the title,
/// the items and the selection of the current level, and the history.
pub proof fn lemma_descend_ascend(m: NavModel)
    requires
        valid_nav(m),
        dispatch_of(m) is Descended,
    ensures
        ascended(activated(m)) == m,
{
    let n = activated(m);
    assert(n.history.last() == m.current);
    assert(n.history.drop_last() =~= m.history);
}

/// Going back at the root changes nothing.
pub proof fn lemma_ascend_at_root(m: NavModel)
    requires
        m.history.len() == 0,
    ensures
        ascended(m) == m,
{
}

/// Activating a command leaves the state as it is, and the command `exit`
/// is never handed out to be run: it asks to quit.
pub proof fn lemma_exit_quits(m: NavModel)
    ensures
        dispatch_of(m) != DispatchModel::RunCommand(exit_word()),
        dispatch_of(m) is Quit <==> (selected_item(m.current) matches Some(item)
            && item.action matches ActionModel::Execute(command) && normalized(command)
            == exit_word()),
        !(dispatch_of(m) is Descended) ==> activated(m) == m,
{
}

/// Reading the same text twice gives equal menus: the same title and the
/// same tree of items.
pub proof fn lemma_parse_deterministic(
    text: Seq<char>,
    a: Result<(String, Vec<MenuItem>), ParseError>,
    b: Result<(String, Vec<MenuItem>), ParseError>,
)
    requires
        is_parse_of(text, a),
        is_parse_of(text, b),
    ensures
        a is Ok,
        b is Ok,
        a->Ok_0.0@ == b->Ok_0.0@,
        models(a->Ok_0.1@) == models(b->Ok_0.1@),
{
}

} // verus!
