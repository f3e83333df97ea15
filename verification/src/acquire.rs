//! Content-addressed acquisition: deriving each variant's cache path from
//! the family, the variant's canonical string and a digest of its remote
//! location, and the reuse rule that makes repeated acquisition
//! fetch-idempotent.

use vstd::prelude::*;
use vstd::utf8::encode_utf8;

use sha2::{Digest, Sha256};

use crate::codec::{spec_variant_string, variant_to_string};
use crate::data::{find_family, find_file, lookup_file, Data};
use crate::error::Error;
use crate::font::{DefinedFontInstallSpec, DefinedFontVariantSpec};
use crate::source::CacheSnapshot;
use crate::util::vec_contains_string;

verus! {

/// What SHA-256 computes for a byte string.
pub uninterp spec fn sha256_of(data: Seq<u8>) -> Seq<u8>;

/// Relies on sha2's `Sha256`: a 32-byte digest that depends on the input
/// bytes alone.
#[verifier::external_body]
fn sha256(data: &[u8]) -> (r: Vec<u8>)
    ensures
        r@ == sha256_of(data@),
        r@.len() == 32,
{
    Sha256::digest(data).to_vec()
}

/// The lowercase hexadecimal digit for a value below sixteen.
pub open spec fn hex_digit_char(d: nat) -> char {
    if d == 0 {
        '0'
    } else if d == 1 {
        '1'
    } else if d == 2 {
        '2'
    } else if d == 3 {
        '3'
    } else if d == 4 {
        '4'
    } else if d == 5 {
        '5'
    } else if d == 6 {
        '6'
    } else if d == 7 {
        '7'
    } else if d == 8 {
        '8'
    } else if d == 9 {
        '9'
    } else if d == 10 {
        'a'
    } else if d == 11 {
        'b'
    } else if d == 12 {
        'c'
    } else if d == 13 {
        'd'
    } else if d == 14 {
        'e'
    } else {
        'f'
    }
}

/// The lowercase hex spelling of a byte string, two digits per byte.
pub open spec fn spec_hex_of(data: Seq<u8>) -> Seq<char>
    decreases data.len(),
{
    if data.len() == 0 {
        Seq::empty()
    } else {
        seq![
            hex_digit_char((data.first() / 16) as nat),
            hex_digit_char((data.first() % 16) as nat),
        ] + spec_hex_of(data.drop_first())
    }
}

/// Append the lowercase hex digit of `d`.
fn append_hex_digit(out: &mut String, d: u8)
    requires
        d < 16,
    ensures
        final(out)@ == old(out)@ + seq![hex_digit_char(d as nat)],
{
    proof {
        reveal_strlit("0");
        reveal_strlit("1");
        reveal_strlit("2");
        reveal_strlit("3");
        reveal_strlit("4");
        reveal_strlit("5");
        reveal_strlit("6");
        reveal_strlit("7");
        reveal_strlit("8");
        reveal_strlit("9");
        reveal_strlit("a");
        reveal_strlit("b");
        reveal_strlit("c");
        reveal_strlit("d");
        reveal_strlit("e");
        reveal_strlit("f");
        assert("0"@ =~= seq!['0']);
        assert("1"@ =~= seq!['1']);
        assert("2"@ =~= seq!['2']);
        assert("3"@ =~= seq!['3']);
        assert("4"@ =~= seq!['4']);
        assert("5"@ =~= seq!['5']);
        assert("6"@ =~= seq!['6']);
        assert("7"@ =~= seq!['7']);
        assert("8"@ =~= seq!['8']);
        assert("9"@ =~= seq!['9']);
        assert("a"@ =~= seq!['a']);
        assert("b"@ =~= seq!['b']);
        assert("c"@ =~= seq!['c']);
        assert("d"@ =~= seq!['d']);
        assert("e"@ =~= seq!['e']);
        assert("f"@ =~= seq!['f']);
    }
    match d {
        0 => out.append("0"),
        1 => out.append("1"),
        2 => out.append("2"),
        3 => out.append("3"),
        4 => out.append("4"),
        5 => out.append("5"),
        6 => out.append("6"),
        7 => out.append("7"),
        8 => out.append("8"),
        9 => out.append("9"),
        10 => out.append("a"),
        11 => out.append("b"),
        12 => out.append("c"),
        13 => out.append("d"),
        14 => out.append("e"),
        _ => out.append("f"),
    }
}

/// Spell a byte string in lowercase hex.
fn to_hex(data: &Vec<u8>) -> (r: String)
    ensures
        r@ == spec_hex_of(data@),
{
    let mut r = String::new();
    let mut i: usize = 0;
    proof {
        assert(data@.skip(0) =~= data@);
        assert(r@ + spec_hex_of(data@) =~= spec_hex_of(data@));
    }
    while i < data.len()
        invariant
            0 <= i <= data.len(),
            r@ + spec_hex_of(data@.skip(i as int)) == spec_hex_of(data@),
        decreases data.len() - i,
    {
        let b = data[i];
        proof {
            let suffix = data@.skip(i as int);
            assert(suffix.first() == data@[i as int]);
            assert(suffix.drop_first() =~= data@.skip(i + 1));
        }
        let ghost before = r@;
        append_hex_digit(&mut r, b / 16);
        append_hex_digit(&mut r, b % 16);
        proof {
            assert(r@ =~= before + seq![
                hex_digit_char((b / 16) as nat),
                hex_digit_char((b % 16) as nat),
            ]);
            assert(r@ + spec_hex_of(data@.skip(i + 1)) =~= spec_hex_of(data@));
        }
        i = i + 1;
    }
    proof {
        assert(data@.skip(data@.len() as int) =~= Seq::<u8>::empty());
        assert(r@ =~= spec_hex_of(data@));
    }
    r
}

/// The digest that names a remote location in the cache: the lowercase hex
/// SHA-256 of the location's bytes.
pub open spec fn spec_location_hash(remote: Seq<char>) -> Seq<char> {
    spec_hex_of(sha256_of(encode_utf8(remote)))
}

/// The cache file name of a remote location's digest.
pub fn location_hash(remote: &str) -> (r: String)
    ensures
        r@ == spec_location_hash(remote@),
{
    let digest = sha256(remote.as_bytes());
    to_hex(&digest)
}

/// The position right after the last `'/'`, or zero when there is none:
/// where the last path component starts.
pub open spec fn spec_file_name_start(s: Seq<char>) -> int
    decreases s.len(),
{
    if s.len() == 0 {
        0
    } else if s.last() == '/' {
        s.len() as int
    } else {
        spec_file_name_start(s.drop_last())
    }
}

proof fn lemma_file_name_start_from(s: Seq<char>, i: int)
    requires
        0 <= i <= s.len(),
        forall|k: int| i <= k < s.len() ==> s[k] != '/',
    ensures
        spec_file_name_start(s) == spec_file_name_start(s.subrange(0, i)),
    decreases s.len() - i,
{
    if i == s.len() {
        assert(s.subrange(0, i) =~= s);
    } else {
        assert(s.last() != '/');
        lemma_file_name_start_from(s.drop_last(), i);
        assert(s.drop_last().subrange(0, i) =~= s.subrange(0, i));
    }
}

/// The index of the last `'.'`, or minus one when there is none.
pub open spec fn spec_last_dot(s: Seq<char>) -> int
    decreases s.len(),
{
    if s.len() == 0 {
        -1
    } else if s.last() == '.' {
        s.len() - 1
    } else {
        spec_last_dot(s.drop_last())
    }
}

proof fn lemma_last_dot_from(s: Seq<char>, i: int)
    requires
        0 <= i <= s.len(),
        forall|k: int| i <= k < s.len() ==> s[k] != '.',
    ensures
        spec_last_dot(s) == spec_last_dot(s.subrange(0, i)),
    decreases s.len() - i,
{
    if i == s.len() {
        assert(s.subrange(0, i) =~= s);
    } else {
        assert(s.last() != '.');
        lemma_last_dot_from(s.drop_last(), i);
        assert(s.drop_last().subrange(0, i) =~= s.subrange(0, i));
    }
}

/// The dot suffix of a remote location's last path component, the dot
/// included; empty when the component has no dot, or only a leading one.
pub open spec fn spec_extension(s: Seq<char>) -> Seq<char> {
    let name = s.subrange(spec_file_name_start(s), s.len() as int);
    let d = spec_last_dot(name);
    if d > 0 {
        name.subrange(d, name.len() as int)
    } else {
        Seq::empty()
    }
}

fn find_file_name_start(s: &str) -> (r: usize)
    ensures
        r as int == spec_file_name_start(s@),
        r <= s@.len(),
{
    let n = s.unicode_len();
    let mut i = n;
    while i > 0
        invariant
            0 <= i <= n,
            n == s@.len(),
            forall|k: int| i <= k < s@.len() ==> s@[k] != '/',
        decreases i,
    {
        let c = s.get_char(i - 1);
        if c == '/' {
            proof {
                lemma_file_name_start_from(s@, i as int);
                assert(s@.subrange(0, i as int).last() == s@[i - 1]);
            }
            return i;
        }
        i = i - 1;
    }
    proof {
        lemma_file_name_start_from(s@, 0);
        assert(s@.subrange(0, 0) =~= Seq::<char>::empty());
    }
    0
}

fn find_last_dot(s: &str) -> (r: Option<usize>)
    ensures
        match r {
            Some(d) => spec_last_dot(s@) == d as int && d < s@.len(),
            None => spec_last_dot(s@) == -1,
        },
{
    let n = s.unicode_len();
    let mut i = n;
    while i > 0
        invariant
            0 <= i <= n,
            n == s@.len(),
            forall|k: int| i <= k < s@.len() ==> s@[k] != '.',
        decreases i,
    {
        let c = s.get_char(i - 1);
        if c == '.' {
            proof {
                lemma_last_dot_from(s@, i as int);
                assert(s@.subrange(0, i as int).last() == s@[i - 1]);
            }
            return Some(i - 1);
        }
        i = i - 1;
    }
    proof {
        lemma_last_dot_from(s@, 0);
        assert(s@.subrange(0, 0) =~= Seq::<char>::empty());
    }
    None
}

/// The dot-extension a cache file keeps from its remote location.
pub fn extension_of(s: &str) -> (r: String)
    ensures
        r@ == spec_extension(s@),
{
    let n = s.unicode_len();
    let fstart = find_file_name_start(s);
    let name = s.substring_char(fstart, n);
    match find_last_dot(name) {
        Some(d) => {
            if d > 0 {
                let ext = name.substring_char(d, name.unicode_len());
                String::from_str(ext)
            } else {
                String::new()
            }
        },
        None => String::new(),
    }
}

/// The scheme put before a catalog's bare remote location.
pub open spec fn spec_download_url(remote: Seq<char>) -> Seq<char> {
    seq!['h', 't', 't', 'p', 's', ':', '/', '/'] + remote
}

/// The cache path of one variant: the cache directory, the family, the
/// variant's canonical string, then the location digest with the remote
/// file's extension.
pub open spec fn spec_variant_path(
    dir: Seq<char>,
    id: Seq<char>,
    v: DefinedFontVariantSpec,
    remote: Seq<char>,
) -> Seq<char> {
    dir + seq!['/'] + id + seq!['/'] + spec_variant_string(v) + seq!['/'] + spec_location_hash(
        remote,
    ) + spec_extension(remote)
}

/// Derive the cache path of one variant of a family.
pub fn variant_download_path(
    dir: &str,
    family_id: &str,
    variant: &DefinedFontVariantSpec,
    remote: &str,
) -> (r: String)
    ensures
        r@ == spec_variant_path(dir@, family_id@, *variant, remote@),
{
    proof {
        reveal_strlit("/");
        assert("/"@ =~= seq!['/']);
    }
    let mut r = String::from_str(dir);
    r.append("/");
    r.append(family_id);
    r.append("/");
    let vs = variant_to_string(variant);
    r.append(vs.as_str());
    r.append("/");
    let hash = location_hash(remote);
    r.append(hash.as_str());
    let ext = extension_of(remote);
    r.append(ext.as_str());
    proof {
        assert(r@ =~= spec_variant_path(dir@, family_id@, *variant, remote@));
    }
    r
}

/// One variant's acquisition work: where the file lives in the cache and
/// where it is fetched from when missing.
#[derive(PartialEq, Eq, Clone, Debug)]
pub struct DownloadItem {
    pub variant: DefinedFontVariantSpec,
    pub path: String,
    pub url: String,
}

/// The paths and endpoints of a whole install spec, walked left to right;
/// nothing as soon as the catalog lists no file for a variant.
pub open spec fn spec_plan(
    dir: Seq<char>,
    id: Seq<char>,
    files: Seq<(String, String)>,
    styles: Seq<DefinedFontVariantSpec>,
) -> Option<Seq<(Seq<char>, Seq<char>)>>
    decreases styles.len(),
{
    if styles.len() == 0 {
        Some(Seq::empty())
    } else {
        match spec_plan(dir, id, files, styles.drop_last()) {
            None => None,
            Some(rest) => match find_file(files, spec_variant_string(styles.last())) {
                None => None,
                Some(rem) => Some(
                    rest.push(
                        (spec_variant_path(dir, id, styles.last(), rem), spec_download_url(rem)),
                    ),
                ),
            },
        }
    }
}

proof fn lemma_plan_none(
    dir: Seq<char>,
    id: Seq<char>,
    files: Seq<(String, String)>,
    styles: Seq<DefinedFontVariantSpec>,
    i: int,
)
    requires
        0 <= i < styles.len(),
        find_file(files, spec_variant_string(styles[i])) is None,
    ensures
        spec_plan(dir, id, files, styles) is None,
    decreases styles.len(),
{
    if i < styles.len() - 1 {
        assert(styles.drop_last()[i] == styles[i]);
        lemma_plan_none(dir, id, files, styles.drop_last(), i);
    }
}

/// Compute every variant's cache path and download endpoint for one
/// resolved font: a not-found error when no refresh has ever succeeded, a
/// generic error when the family is gone from the catalog or lists no file
/// for one of the variants.
pub fn plan_font_download(cache: &CacheSnapshot, spec: &DefinedFontInstallSpec, dir: &String) -> (r:
    Result<Vec<DownloadItem>, Error>)
    ensures
        match cache.catalog {
            None => r matches Err(e) && e is IO,
            Some(data) => match r {
                Ok(items) => {
                    &&& find_family(data.spec_families(), spec.id@) matches Some(f)
                    &&& spec_plan(dir@, spec.id@, f.files@, spec.styles@) matches Some(plan)
                    &&& items@.len() == spec.styles@.len()
                    &&& plan.len() == spec.styles@.len()
                    &&& forall|k: int|
                        0 <= k < items@.len() ==> (#[trigger] items@[k]).variant
                            == spec.styles@[k] && items@[k].path@ == plan[k].0 && items@[k].url@
                            == plan[k].1
                },
                Err(e) => {
                    ||| (find_family(data.spec_families(), spec.id@) is None && e is Generic)
                    ||| {
                        &&& find_family(data.spec_families(), spec.id@) matches Some(f)
                        &&& spec_plan(dir@, spec.id@, f.files@, spec.styles@) is None
                        &&& e is Generic
                    }
                },
            },
        },
{
    proof {
        reveal_strlit("https://");
        assert("https://"@ =~= seq!['h', 't', 't', 'p', 's', ':', '/', '/']);
    }
    let data = match &cache.catalog {
        None => {
            proof {
                reveal_strlit("Data file does not exist");
            }
            return Err(Error::IO(String::from_str("Data file does not exist")));
        },
        Some(d) => d,
    };
    let family = match data.get_family(&spec.id) {
        None => {
            let mut m = String::from_str("Font ");
            m.append(spec.id.as_str());
            m.append(" does not exist");
            return Err(Error::Generic(m));
        },
        Some(f) => f,
    };
    let ghost styles_view = spec.styles@;
    let mut items: Vec<DownloadItem> = Vec::new();
    let ghost mut plan_acc: Seq<(Seq<char>, Seq<char>)> = Seq::empty();
    let mut i: usize = 0;
    while i < spec.styles.len()
        invariant
            0 <= i <= spec.styles.len(),
            styles_view == spec.styles@,
            cache.catalog matches Some(d) && find_family(d.spec_families(), spec.id@)
                == Some(*family),
            spec_plan(dir@, spec.id@, family.files@, styles_view.subrange(0, i as int)) == Some(
                plan_acc,
            ),
            plan_acc.len() == i,
            items@.len() == i,
            forall|k: int|
                0 <= k < i ==> (#[trigger] items@[k]).variant == styles_view[k] && items@[k].path@
                    == plan_acc[k].0 && items@[k].url@ == plan_acc[k].1,
            "https://"@ =~= seq!['h', 't', 't', 'p', 's', ':', '/', '/'],
        decreases spec.styles.len() - i,
    {
        proof {
            assert(styles_view.subrange(0, i + 1).drop_last() =~= styles_view.subrange(0, i as int));
            assert(styles_view.subrange(0, i + 1).last() == styles_view[i as int]);
        }
        let variant = spec.styles[i];
        let variant_name = variant_to_string(&variant);
        let remote_file = match lookup_file(&family.files, &variant_name) {
            Some(f) => f,
            None => {
                proof {
                    lemma_plan_none(dir@, spec.id@, family.files@, styles_view, i as int);
                }
                let mut m = String::from_str("Could not get file for font variant ");
                m.append(variant_name.as_str());
                return Err(Error::Generic(m));
            },
        };
        let path = variant_download_path(dir.as_str(), spec.id.as_str(), &variant, remote_file.as_str());
        let mut url = String::from_str("https://");
        url.append(remote_file.as_str());
        items.push(DownloadItem { variant, path, url });
        proof {
            plan_acc = plan_acc.push(
                (
                    spec_variant_path(dir@, spec.id@, styles_view[i as int], remote_file@),
                    spec_download_url(remote_file@),
                ),
            );
        }
        i = i + 1;
    }
    proof {
        assert(styles_view.subrange(0, styles_view.len() as int) =~= styles_view);
    }
    Ok(items)
}

/// Whether acquiring a path must fetch from the remote: only when no file
/// is cached at that path yet.
pub open spec fn spec_needs_fetch(present: Seq<Seq<char>>, path: Seq<char>) -> bool {
    !present.contains(path)
}

/// The cached paths after one acquisition of `path`.
pub open spec fn spec_after_acquire(present: Seq<Seq<char>>, path: Seq<char>) -> Seq<Seq<char>> {
    if spec_needs_fetch(present, path) {
        present.push(path)
    } else {
        present
    }
}

/// One variant's acquisition against the set of already cached paths:
/// reuse the file when present, otherwise fetch and record it. Returns
/// whether a fetch was performed.
pub fn acquire_variant(present: &mut Vec<String>, path: &String) -> (fetched: bool)
    ensures
        fetched == spec_needs_fetch(old(present).deep_view(), path@),
        final(present).deep_view() == spec_after_acquire(old(present).deep_view(), path@),
{
    if vec_contains_string(present, path) {
        false
    } else {
        let ghost old_dv = present.deep_view();
        present.push(path.clone());
        proof {
            assert forall|k: int|
                0 <= k < present.deep_view().len() implies #[trigger] present.deep_view()[k]
                == old_dv.push(path@)[k] by {
                if k < old_dv.len() {
                    assert(present@[k]@ == old_dv[k]);
                } else {
                    assert(present@[k]@ == path@);
                }
            }
            assert(present.deep_view() =~= old_dv.push(path@));
        }
        true
    }
}

/// Law: acquisition is fetch-idempotent. Whatever one acquisition of a path
/// did, a second acquisition of the same path finds the file cached: it
/// fetches nothing and leaves the cache unchanged.
pub proof fn lemma_acquire_idempotent(present: Seq<Seq<char>>, path: Seq<char>)
    ensures
        !spec_needs_fetch(spec_after_acquire(present, path), path),
        spec_after_acquire(spec_after_acquire(present, path), path) == spec_after_acquire(
            present,
            path,
        ),
{
    if spec_needs_fetch(present, path) {
        assert(present.push(path)[present.len() as int] == path);
        assert(present.push(path).contains(path));
    }
}

} // verus!
