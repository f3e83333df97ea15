//! Small helpers: character-exact string comparison, vector membership,
//! and the list pretty-printers used for console messages.

use vstd::prelude::*;

verus! {

/// Character-by-character equality of two string slices.
pub fn str_eq(a: &str, b: &str) -> (r: bool)
    ensures
        r == (a@ == b@),
{
    let an = a.unicode_len();
    let bn = b.unicode_len();
    if an != bn {
        return false;
    }
    let mut i: usize = 0;
    while i < an
        invariant
            an == a@.len(),
            an == b@.len(),
            0 <= i <= an,
            forall|k: int| 0 <= k < i ==> a@[k] == b@[k],
        decreases an - i,
    {
        let ca = a.get_char(i);
        let cb = b.get_char(i);
        if ca != cb {
            assert(a@[i as int] != b@[i as int]);
            return false;
        }
        i = i + 1;
    }
    proof {
        assert(a@ =~= b@);
    }
    true
}

/// Whether `items` holds a string equal to `needle`.
pub fn vec_contains_string(items: &Vec<String>, needle: &String) -> (r: bool)
    ensures
        r == items.deep_view().contains(needle@),
{
    let mut i: usize = 0;
    while i < items.len()
        invariant
            0 <= i <= items.len(),
            items.deep_view().len() == items.len(),
            forall|k: int| 0 <= k < items.len() ==> items.deep_view()[k] == items@[k]@,
            forall|k: int| 0 <= k < i ==> items@[k]@ != needle@,
        decreases items.len() - i,
    {
        if str_eq(items[i].as_str(), needle.as_str()) {
            assert(items.deep_view()[i as int] == needle@);
            return true;
        }
        i = i + 1;
    }
    proof {
        assert forall|k: int| 0 <= k < items.deep_view().len() implies items.deep_view()[k]
            != needle@ by {
            assert(items.deep_view()[k] == items@[k]@);
        }
    }
    false
}

/// The plural suffix for a count: empty for exactly one, `"s"` otherwise.
pub open spec fn spec_plural_s(n: usize) -> Seq<char> {
    if n == 1 {
        Seq::empty()
    } else {
        seq!['s']
    }
}

pub fn plural_s(n: usize) -> (r: &'static str)
    ensures
        r@ == spec_plural_s(n),
{
    proof {
        reveal_strlit("");
        reveal_strlit("s");
        assert(""@ =~= Seq::<char>::empty());
        assert("s"@ =~= seq!['s']);
    }
    if n == 1 {
        ""
    } else {
        "s"
    }
}

/// The opposite suffix, for verbs: `"s"` for exactly one, empty otherwise.
pub open spec fn spec_plural_s_opposite(n: usize) -> Seq<char> {
    if n == 1 {
        seq!['s']
    } else {
        Seq::empty()
    }
}

pub fn plural_s_opposite(n: usize) -> (r: &'static str)
    ensures
        r@ == spec_plural_s_opposite(n),
{
    proof {
        reveal_strlit("");
        reveal_strlit("s");
        assert(""@ =~= Seq::<char>::empty());
        assert("s"@ =~= seq!['s']);
    }
    if n == 1 {
        "s"
    } else {
        ""
    }
}

/// The first `i` items, joined with a comma and a space.
pub open spec fn spec_list_front(items: Seq<Seq<char>>, i: int) -> Seq<char>
    decreases i,
{
    if i <= 0 {
        Seq::empty()
    } else if i == 1 {
        items[0]
    } else {
        spec_list_front(items, i - 1) + seq![',', ' '] + items[i - 1]
    }
}

/// The human-readable listing of `items` with `join` before the closing
/// element: empty for none, the item itself for one, `"a <join> b"` for
/// two, and for three or more the items comma-separated with the joining
/// word before the last (`"a, b, <join> c"`).
pub open spec fn spec_nice_list(items: Seq<Seq<char>>, join: Seq<char>) -> Seq<char> {
    if items.len() == 0 {
        Seq::empty()
    } else if items.len() == 1 {
        items[0]
    } else if items.len() == 2 {
        items[0] + seq![' '] + join + seq![' '] + items[1]
    } else {
        spec_list_front(items, items.len() - 1) + seq![',', ' '] + join + seq![' ']
            + items[items.len() - 1]
    }
}

/// Join the items into one listing string, with `last_join` (for example
/// `"and"`) before the closing element.
pub fn nice_list(items: &Vec<String>, last_join: &str) -> (r: String)
    ensures
        r@ == spec_nice_list(items.deep_view(), last_join@),
{
    proof {
        reveal_strlit(" ");
        reveal_strlit(", ");
        assert(" "@ =~= seq![' ']);
        assert(", "@ =~= seq![',', ' ']);
    }
    let ghost dv = items.deep_view();
    proof {
        assert(dv.len() == items.len());
        assert(forall|k: int| 0 <= k < items.len() ==> dv[k] == items@[k]@);
    }
    let n = items.len();
    if n == 0 {
        let r = String::new();
        proof {
            assert(r@ =~= spec_nice_list(dv, last_join@));
        }
        r
    } else if n == 1 {
        let r = items[0].clone();
        r
    } else if n == 2 {
        let mut r = items[0].clone();
        r.append(" ");
        r.append(last_join);
        r.append(" ");
        r.append(items[1].as_str());
        proof {
            assert(r@ =~= spec_nice_list(dv, last_join@));
        }
        r
    } else {
        let mut r = items[0].clone();
        let mut i: usize = 1;
        while i < n - 1
            invariant
                n == items.len(),
                n == dv.len(),
                3 <= n,
                1 <= i <= n - 1,
                forall|k: int| 0 <= k < n ==> dv[k] == items@[k]@,
                ", "@ =~= seq![',', ' '],
                r@ == spec_list_front(dv, i as int),
            decreases n - i,
        {
            r.append(", ");
            r.append(items[i].as_str());
            proof {
                assert(r@ =~= spec_list_front(dv, i + 1));
            }
            i = i + 1;
        }
        r.append(", ");
        r.append(last_join);
        r.append(" ");
        r.append(items[n - 1].as_str());
        proof {
            assert(r@ =~= spec_nice_list(dv, last_join@));
        }
        r
    }
}

} // verus!
