//! The multi-source resolver: request parsing, partitioning by source pin,
//! the first-success-wins merge across sources tried in priority order, and
//! the aggregate accounting of unresolved fonts.

use vstd::prelude::*;

use crate::codec::u64_to_string;
use crate::error::Error;
use crate::font::{DefinedFontInstallSpec, FontDescription};
use crate::source::SourceDescription;
use crate::util::{plural_s, spec_plural_s, str_eq};

verus! {

/// The characters of an optional string.
pub open spec fn view_opt(o: Option<String>) -> Option<Seq<char>> {
    match o {
        Some(s) => Some(s@),
        None => None,
    }
}

/// Character-exact equality of two optional strings.
pub fn opt_str_eq(a: &Option<String>, b: &Option<String>) -> (r: bool)
    ensures
        r == (view_opt(*a) == view_opt(*b)),
{
    match (a, b) {
        (None, None) => true,
        (Some(x), Some(y)) => str_eq(x.as_str(), y.as_str()),
        _ => false,
    }
}

/// One requested font, optionally pinned to a single source.
#[derive(Clone, Debug, Hash, PartialEq, Eq)]
pub struct FontSpec {
    pub source: Option<String>,
    pub font_id: String,
}

/// The index of the first `':'`, or the length when there is none.
pub open spec fn first_colon(s: Seq<char>) -> int
    decreases s.len(),
{
    if s.len() == 0 {
        0
    } else if s[0] == ':' {
        0
    } else {
        1 + first_colon(s.drop_first())
    }
}

proof fn lemma_first_colon(s: Seq<char>)
    ensures
        0 <= first_colon(s) <= s.len(),
        forall|k: int| 0 <= k < first_colon(s) ==> s[k] != ':',
        first_colon(s) < s.len() ==> s[first_colon(s)] == ':',
    decreases s.len(),
{
    if s.len() > 0 && s[0] != ':' {
        lemma_first_colon(s.drop_first());
        assert forall|k: int| 0 <= k < first_colon(s) implies s[k] != ':' by {
            if k > 0 {
                assert(s.drop_first()[k - 1] == s[k]);
            }
        }
        if first_colon(s) < s.len() {
            assert(s.drop_first()[first_colon(s) - 1] == s[first_colon(s)]);
        }
    }
}

/// The index of the first `':'`, or the length when there is none.
fn find_first_colon(s: &str) -> (k: usize)
    ensures
        k as int == first_colon(s@),
{
    let n = s.unicode_len();
    let mut i: usize = 0;
    while i < n
        invariant
            n == s@.len(),
            0 <= i <= n,
            forall|t: int| 0 <= t < i ==> s@[t] != ':',
        decreases n - i,
    {
        let c = s.get_char(i);
        if c == ':' {
            proof {
                lemma_first_colon(s@);
                let fc = first_colon(s@);
                if fc < i {
                    assert(s@[fc] == ':');
                }
                if fc > i {
                    assert(s@[i as int] != ':');
                }
            }
            return i;
        }
        i = i + 1;
    }
    proof {
        lemma_first_colon(s@);
        let fc = first_colon(s@);
        if fc < n {
            assert(s@[fc] == ':');
        }
    }
    n
}

/// What a request string denotes: nothing for the empty string or one with
/// a second `':'`; otherwise, in the `<source>:<font>` form, the text
/// before the first `':'` as the source pin — no pin when there is no
/// `':'` — and the text after it as the font identifier.
pub open spec fn spec_parse_font_spec(s: Seq<char>) -> Option<(Option<Seq<char>>, Seq<char>)> {
    if s.len() == 0 {
        None
    } else {
        let k = first_colon(s);
        if k == s.len() {
            Some((None, s))
        } else if exists|j: int| k < j < s.len() && s[j] == ':' {
            None
        } else {
            Some((Some(s.subrange(0, k)), s.subrange(k + 1, s.len() as int)))
        }
    }
}

/// The characters of the complaint about an empty request.
pub open spec fn empty_fontspec_message() -> Seq<char> {
    seq![
        'F', 'o', 'n', 't', 's', 'p', 'e', 'c', ' ', 'm', 'u', 's', 't', ' ', 'n', 'o', 't', ' ',
        'b', 'e', ' ', 'a', 'n', ' ', 'e', 'm', 'p', 't', 'y', ' ', 's', 't', 'r', 'i', 'n', 'g',
    ]
}

/// The characters of the complaint about a second `':'`.
pub open spec fn illegal_colon_message() -> Seq<char> {
    seq![
        'C', 'h', 'a', 'r', 'a', 'c', 't', 'e', 'r', ' ', '\'', ':', '\'', ' ', 'i', 's', ' ',
        'i', 'l', 'l', 'e', 'g', 'a', 'l', ' ', 'i', 'n', ' ', 'f', 'o', 'n', 't', ' ', 'I', 'D',
    ]
}

impl FontSpec {
    /// The request's pin and identifier as characters.
    pub open spec fn spec_view(self) -> (Option<Seq<char>>, Seq<char>) {
        (view_opt(self.source), self.font_id@)
    }

    /// Parse a request string, failing on an empty request and on a second
    /// `':'` in the font identifier.
    pub fn parse(v: &str) -> (r: Result<FontSpec, Error>)
        ensures
            match r {
                Ok(fs) => spec_parse_font_spec(v@) == Some(fs.spec_view()),
                Err(e) => {
                    &&& spec_parse_font_spec(v@) is None
                    &&& e is Generic
                    &&& e.spec_message() == if v@.len() == 0 {
                        empty_fontspec_message()
                    } else {
                        illegal_colon_message()
                    }
                },
            },
    {
        let n = v.unicode_len();
        if n == 0 {
            proof {
                reveal_strlit("Fontspec must not be an empty string");
                assert("Fontspec must not be an empty string"@ =~= empty_fontspec_message());
            }
            return Err(Error::Generic(String::from_str("Fontspec must not be an empty string")));
        }
        let i = find_first_colon(v);
        proof {
            lemma_first_colon(v@);
        }
        if i == n {
            let fs = FontSpec { source: None, font_id: String::from_str(v) };
            return Ok(fs);
        }
        let mut j: usize = i + 1;
        while j < n
            invariant
                n == v@.len(),
                i as int == first_colon(v@),
                i < j <= n,
                forall|k: int| i < k < j ==> v@[k] != ':',
            decreases n - j,
        {
            if v.get_char(j) == ':' {
                proof {
                    reveal_strlit("Character ':' is illegal in font ID");
                    assert("Character ':' is illegal in font ID"@ =~= illegal_colon_message());
                    assert(v@[j as int] == ':');
                    assert(i as int == first_colon(v@) && i < j < n);
                }
                return Err(
                    Error::Generic(String::from_str("Character ':' is illegal in font ID")),
                );
            }
            j = j + 1;
        }
        proof {
            assert forall|t: int| first_colon(v@) < t < v@.len() implies v@[t] != ':' by {
                assert(v@[t] != ':');
            }
        }
        let source = v.substring_char(0, i);
        let font_id = v.substring_char(i + 1, n);
        let fs = FontSpec {
            source: Some(String::from_str(source)),
            font_id: String::from_str(font_id),
        };
        Ok(fs)
    }
}

/// What one source answered for one font: which source it was, and the
/// resolved install spec with its description, or the error the source
/// reported.
#[derive(PartialEq, Eq, Debug)]
pub struct ResolutionOutcome {
    pub source: SourceDescription,
    pub result: Result<(DefinedFontInstallSpec, FontDescription), Error>,
}

impl ResolutionOutcome {
    /// Whether this outcome resolved the font.
    pub open spec fn spec_is_success(self) -> bool {
        self.result is Ok
    }
}

/// Whether a merge-table entry already holds a success.
pub open spec fn spec_entry_resolved(entry: Option<ResolutionOutcome>) -> bool {
    match entry {
        Some(o) => o.spec_is_success(),
        None => false,
    }
}

/// The merge rule for one font and one more source outcome: an entry that
/// already holds a success is left untouched; anything else is replaced by
/// the new outcome, success or failure.
pub open spec fn spec_merge_entry(
    cur: Option<ResolutionOutcome>,
    new: ResolutionOutcome,
) -> Option<ResolutionOutcome> {
    if spec_entry_resolved(cur) {
        cur
    } else {
        Some(new)
    }
}

/// The entry left for one font after the outcomes of all its candidate
/// sources were merged in priority order.
pub open spec fn spec_merge_seq(results: Seq<ResolutionOutcome>) -> Option<ResolutionOutcome>
    decreases results.len(),
{
    if results.len() == 0 {
        None
    } else {
        spec_merge_entry(spec_merge_seq(results.drop_last()), results.last())
    }
}

/// Law: when every candidate source failed, the entry left for the font is
/// the last source's failure.
pub proof fn lemma_fallback_all_fail(results: Seq<ResolutionOutcome>)
    requires
        results.len() > 0,
        forall|k: int| 0 <= k < results.len() ==> !(#[trigger] results[k]).spec_is_success(),
    ensures
        spec_merge_seq(results) == Some(results.last()),
    decreases results.len(),
{
    assert(!results[results.len() - 1].spec_is_success());
    if results.len() == 1 {
        assert(results.drop_last().len() == 0);
    } else {
        assert forall|k: int|
            0 <= k < results.drop_last().len() implies !(#[trigger] results.drop_last()[k]).spec_is_success() by {
            assert(results.drop_last()[k] == results[k]);
        }
        lemma_fallback_all_fail(results.drop_last());
    }
}

/// Law (fallback ordering): sources are tried in priority order and the
/// first success wins. If source `i` succeeded for the font and every
/// earlier source failed, the entry left by the merge is exactly source
/// `i`'s outcome — a later success never replaces it, and an earlier
/// failure never hides it.
pub proof fn lemma_fallback_ordering(results: Seq<ResolutionOutcome>, i: int)
    requires
        0 <= i < results.len(),
        results[i].spec_is_success(),
        forall|k: int| 0 <= k < i ==> !(#[trigger] results[k]).spec_is_success(),
    ensures
        spec_merge_seq(results) == Some(results[i]),
    decreases results.len(),
{
    let prefix = results.drop_last();
    if i == results.len() - 1 {
        if results.len() > 1 {
            assert forall|k: int|
                0 <= k < prefix.len() implies !(#[trigger] prefix[k]).spec_is_success() by {
                assert(prefix[k] == results[k]);
            }
            lemma_fallback_all_fail(prefix);
        }
    } else {
        assert forall|k: int| 0 <= k < i implies !(#[trigger] prefix[k]).spec_is_success() by {
            assert(prefix[k] == results[k]);
        }
        assert(prefix[i] == results[i]);
        lemma_fallback_ordering(prefix, i);
    }
}

/// Merge one more source outcome into a font's table entry.
pub fn merge_outcome(entry: &mut Option<ResolutionOutcome>, new: ResolutionOutcome)
    ensures
        *final(entry) == spec_merge_entry(*old(entry), new),
{
    let keep = match entry {
        Some(o) => o.result.is_ok(),
        None => false,
    };
    if !keep {
        *entry = Some(new);
    }
}

/// Merge one source's outcomes for a whole partition into the table, entry
/// by entry.
pub fn merge_source_results(
    table: &mut Vec<Option<ResolutionOutcome>>,
    results: Vec<ResolutionOutcome>,
)
    requires
        old(table).len() == results.len(),
    ensures
        final(table).len() == old(table).len(),
        forall|k: int|
            0 <= k < final(table).len() ==> final(table)@[k] == spec_merge_entry(
                old(table)@[k],
                #[trigger] results@[k],
            ),
{
    let ghost all = results@;
    let mut rest = results;
    let mut i = rest.len();
    while i > 0
        invariant
            0 <= i <= all.len(),
            table@.len() == all.len(),
            rest@ == all.subrange(0, i as int),
            forall|k: int| 0 <= k < i ==> table@[k] == old(table)@[k],
            forall|k: int|
                i <= k < table@.len() ==> table@[k] == spec_merge_entry(
                    old(table)@[k],
                    #[trigger] all[k],
                ),
        decreases i,
    {
        let outcome = rest.pop().unwrap();
        proof {
            assert(all.subrange(0, i as int).last() == all[i - 1]);
            assert(all.subrange(0, i as int).drop_last() =~= all.subrange(0, i - 1));
        }
        i = i - 1;
        let keep = match &table[i] {
            Some(o) => o.result.is_ok(),
            None => false,
        };
        if !keep {
            table.set(i, Some(outcome));
        }
    }
}

/// How many fonts the table still leaves unresolved: the entries that hold
/// no success.
pub open spec fn spec_unresolved_count(table: Seq<Option<ResolutionOutcome>>) -> nat
    decreases table.len(),
{
    if table.len() == 0 {
        0
    } else {
        spec_unresolved_count(table.drop_last()) + (if spec_entry_resolved(table.last()) {
            0nat
        } else {
            1nat
        })
    }
}

/// Count the unresolved fonts of a merged table.
pub fn count_unresolved(table: &Vec<Option<ResolutionOutcome>>) -> (n: usize)
    ensures
        n == spec_unresolved_count(table@),
{
    let mut n: usize = 0;
    let mut i: usize = 0;
    while i < table.len()
        invariant
            0 <= i <= table.len(),
            n <= i,
            n == spec_unresolved_count(table@.subrange(0, i as int)),
        decreases table.len() - i,
    {
        proof {
            assert(table@.subrange(0, i + 1).drop_last() =~= table@.subrange(0, i as int));
            assert(table@.subrange(0, i + 1).last() == table@[i as int]);
        }
        let resolved = match &table[i] {
            Some(o) => o.result.is_ok(),
            None => false,
        };
        if !resolved {
            n = n + 1;
        }
        i = i + 1;
    }
    proof {
        assert(table@.subrange(0, table@.len() as int) =~= table@);
    }
    n
}

/// Report a merged batch: success only when every font resolved; otherwise
/// one aggregate failure naming how many fonts did not.
pub fn batch_report(table: &Vec<Option<ResolutionOutcome>>) -> (r: Result<(), Error>)
    ensures
        r is Ok <==> spec_unresolved_count(table@) == 0,
        r matches Err(e) ==> e is Generic && e.spec_message() == spec_unresolved_message(
            spec_unresolved_count(table@),
        ),
{
    proof {
        reveal_strlit(" font");
        reveal_strlit(" failed to resolve");
        assert(" font"@ =~= seq![' ', 'f', 'o', 'n', 't']);
        assert(" failed to resolve"@ =~= seq![
            ' ', 'f', 'a', 'i', 'l', 'e', 'd', ' ', 't', 'o', ' ', 'r', 'e', 's', 'o', 'l', 'v',
            'e',
        ]);
    }
    let n = count_unresolved(table);
    if n == 0 {
        Ok(())
    } else {
        let mut m = u64_to_string(n as u64);
        m.append(" font");
        m.append(plural_s(n));
        m.append(" failed to resolve");
        proof {
            assert(m@ =~= spec_unresolved_message(n as nat));
        }
        Err(Error::Generic(m))
    }
}

/// The text of the aggregate failure for `n` unresolved fonts.
pub open spec fn spec_unresolved_message(n: nat) -> Seq<char> {
    crate::codec::dec_digits(n) + seq![' ', 'f', 'o', 'n', 't'] + spec_plural_s(n as usize)
        + seq![
        ' ', 'f', 'a', 'i', 'l', 'e', 'd', ' ', 't', 'o', ' ', 'r', 'e', 's', 'o', 'l', 'v', 'e',
    ]
}

/// The text of the aggregate failure for `n` fonts whose acquisition
/// failed.
pub open spec fn spec_download_failure_message(n: nat) -> Seq<char> {
    crate::codec::dec_digits(n) + seq![' ', 'f', 'o', 'n', 't'] + spec_plural_s(n as usize)
        + seq![
        ' ', 'f', 'a', 'i', 'l', 'e', 'd', ' ', 't', 'o', ' ', 'd', 'o', 'w', 'n', 'l', 'o', 'a',
        'd',
    ]
}

/// Report a finished acquisition pass over `failed` fonts that could not be
/// downloaded: one font's failure does not block the others, but once all
/// were attempted any failure fails the install, with a single aggregate
/// error naming the count.
pub fn download_report(failed: usize) -> (r: Result<(), Error>)
    ensures
        r is Ok <==> failed == 0,
        r matches Err(e) ==> e is Generic && e.spec_message() == spec_download_failure_message(
            failed as nat,
        ),
{
    proof {
        reveal_strlit(" font");
        reveal_strlit(" failed to download");
        assert(" font"@ =~= seq![' ', 'f', 'o', 'n', 't']);
        assert(" failed to download"@ =~= seq![
            ' ', 'f', 'a', 'i', 'l', 'e', 'd', ' ', 't', 'o', ' ', 'd', 'o', 'w', 'n', 'l', 'o',
            'a', 'd',
        ]);
    }
    if failed == 0 {
        Ok(())
    } else {
        let mut m = u64_to_string(failed as u64);
        m.append(" font");
        m.append(plural_s(failed));
        m.append(" failed to download");
        proof {
            assert(m@ =~= spec_download_failure_message(failed as nat));
        }
        Err(Error::Generic(m))
    }
}

/// The font identifiers of the requests carrying pin `pin`, in request
/// order.
pub open spec fn spec_ids_for_pin(reqs: Seq<FontSpec>, pin: Option<Seq<char>>) -> Seq<Seq<char>>
    decreases reqs.len(),
{
    if reqs.len() == 0 {
        Seq::empty()
    } else {
        let rest = spec_ids_for_pin(reqs.drop_last(), pin);
        if view_opt(reqs.last().source) == pin {
            rest.push(reqs.last().font_id@)
        } else {
            rest
        }
    }
}

/// The identifiers of the requests pinned to `pin` — `None` collects the
/// unconstrained requests.
pub fn requests_for_pin(requests: &Vec<FontSpec>, pin: &Option<String>) -> (r: Vec<String>)
    ensures
        r.deep_view() == spec_ids_for_pin(requests@, view_opt(*pin)),
{
    let mut r: Vec<String> = Vec::new();
    let ghost mut acc: Seq<Seq<char>> = Seq::empty();
    let mut i: usize = 0;
    while i < requests.len()
        invariant
            0 <= i <= requests.len(),
            spec_ids_for_pin(requests@.subrange(0, i as int), view_opt(*pin)) == acc,
            r@.len() == acc.len(),
            forall|k: int| 0 <= k < acc.len() ==> #[trigger] r@[k]@ == acc[k],
        decreases requests.len() - i,
    {
        proof {
            assert(requests@.subrange(0, i + 1).drop_last() =~= requests@.subrange(0, i as int));
            assert(requests@.subrange(0, i + 1).last() == requests@[i as int]);
        }
        if opt_str_eq(&requests[i].source, pin) {
            r.push(requests[i].font_id.clone());
            proof {
                acc = acc.push(requests@[i as int].font_id@);
            }
        }
        i = i + 1;
    }
    proof {
        assert(requests@.subrange(0, requests@.len() as int) =~= requests@);
        assert forall|k: int| 0 <= k < acc.len() implies #[trigger] r.deep_view()[k] == acc[k] by {
            assert(r@[k]@ == acc[k]);
        }
        assert(r.deep_view() =~= acc);
    }
    r
}

/// Whether some request of `reqs` carries pin `pin`.
pub open spec fn spec_has_pin(reqs: Seq<FontSpec>, pin: Option<Seq<char>>) -> bool {
    exists|k: int| 0 <= k < reqs.len() && view_opt((#[trigger] reqs[k]).source) == pin
}

/// Whether `pins` lists a pin reading `p`.
pub open spec fn spec_pin_listed(pins: Seq<Option<String>>, p: Option<Seq<char>>) -> bool {
    exists|k: int| 0 <= k < pins.len() && view_opt(#[trigger] pins[k]) == p
}

/// Membership of a pin in a list of pins, by characters.
fn vec_contains_pin(pins: &Vec<Option<String>>, pin: &Option<String>) -> (r: bool)
    ensures
        r == spec_pin_listed(pins@, view_opt(*pin)),
{
    let mut i: usize = 0;
    while i < pins.len()
        invariant
            0 <= i <= pins.len(),
            forall|k: int| 0 <= k < i ==> view_opt(#[trigger] pins@[k]) != view_opt(*pin),
        decreases pins.len() - i,
    {
        if opt_str_eq(&pins[i], pin) {
            return true;
        }
        i = i + 1;
    }
    false
}

/// Copy an optional string.
fn clone_opt_string(o: &Option<String>) -> (r: Option<String>)
    ensures
        view_opt(r) == view_opt(*o),
{
    match o {
        None => None,
        Some(s) => Some(s.clone()),
    }
}

/// The distinct source pins of a batch, each at its first occurrence: the
/// partitions the resolver works through.
pub fn distinct_pins(requests: &Vec<FontSpec>) -> (r: Vec<Option<String>>)
    ensures
        forall|p: Option<Seq<char>>|
            #![trigger spec_pin_listed(r@, p)]
            #![trigger spec_has_pin(requests@, p)]
            spec_pin_listed(r@, p) <==> spec_has_pin(requests@, p),
{
    let mut r: Vec<Option<String>> = Vec::new();
    let mut i: usize = 0;
    while i < requests.len()
        invariant
            0 <= i <= requests.len(),
            forall|p: Option<Seq<char>>|
                #![trigger spec_pin_listed(r@, p)]
                #![trigger spec_has_pin(requests@.subrange(0, i as int), p)]
                spec_pin_listed(r@, p) <==> spec_has_pin(requests@.subrange(0, i as int), p),
        decreases requests.len() - i,
    {
        let ghost old_r = r@;
        let ghost pin_view = view_opt(requests@[i as int].source);
        let pin = &requests[i].source;
        if !vec_contains_pin(&r, pin) {
            r.push(clone_opt_string(pin));
        }
        proof {
            let prefix_new = requests@.subrange(0, i + 1);
            let prefix_old = requests@.subrange(0, i as int);
            assert(prefix_new.drop_last() =~= prefix_old);
            assert(prefix_new.last() == requests@[i as int]);
            assert forall|p: Option<Seq<char>>|
                #[trigger] spec_has_pin(prefix_new, p) implies (spec_has_pin(prefix_old, p) || p
                == pin_view) by {
                let w = choose|w: int|
                    0 <= w < prefix_new.len() && view_opt(#[trigger] prefix_new[w].source) == p;
                if w < prefix_old.len() {
                    assert(view_opt(prefix_old[w].source) == p);
                }
            }
            assert forall|p: Option<Seq<char>>|
                #[trigger] spec_has_pin(prefix_old, p) implies spec_has_pin(prefix_new, p) by {
                let w = choose|w: int|
                    0 <= w < prefix_old.len() && view_opt(#[trigger] prefix_old[w].source) == p;
                assert(view_opt(prefix_new[w].source) == p);
            }
            assert(view_opt(prefix_new[i as int].source) == pin_view);
            assert(spec_has_pin(prefix_new, pin_view));
            if r@.len() > old_r.len() {
                assert(view_opt(r@[old_r.len() as int]) == pin_view);
                assert(spec_pin_listed(r@, pin_view));
                assert forall|p: Option<Seq<char>>|
                    #[trigger] spec_pin_listed(r@, p) implies (spec_pin_listed(old_r, p) || p
                    == pin_view) by {
                    let w = choose|w: int| 0 <= w < r@.len() && view_opt(#[trigger] r@[w]) == p;
                    if w < old_r.len() {
                        assert(view_opt(old_r[w]) == p);
                    }
                }
                assert forall|p: Option<Seq<char>>|
                    #[trigger] spec_pin_listed(old_r, p) implies spec_pin_listed(r@, p) by {
                    let w = choose|w: int| 0 <= w < old_r.len() && view_opt(#[trigger] old_r[w]) == p;
                    assert(view_opt(r@[w]) == p);
                }
            } else {
                assert(spec_pin_listed(old_r, pin_view));
                assert(r@ == old_r);
            }
        }
        i = i + 1;
    }
    proof {
        assert(requests@.subrange(0, requests@.len() as int) =~= requests@);
    }
    r
}

} // verus!
