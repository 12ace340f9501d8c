//! Repository entries as the file browser sees them: how they are ordered,
//! which icon each gets, which are binary, and in which unit a size is shown.
use crate::text::{
    ascii_lowercase, ascii_uppercase, chars_eq_str, chars_of, concat2, decimal, decimal_string,
    extension_of, file_extension,
    is_plain_file_name, last_index_of, lowercase_of, plain_extension, to_lowercase,
};
use crate::paths::lemma_last_index_bounds;
use vstd::prelude::*;
use vstd::utf8::{encode_utf8, is_ascii_chars};

verus! {

/// One file or folder of a repository listing, as the browser reads it.
/// `key` is the entry's position in the listing as it was delivered, by
/// which the caller finds its own record of the entry again.
#[derive(Clone, Debug)]
pub struct RepoEntry {
    pub key: usize,
    pub name: String,
    pub path: String,
    pub is_dir: bool,
    pub is_file: bool,
    pub is_lfs: bool,
    /// The size shown for the entry, where it is known.
    pub size: Option<u64>,
}

// ---------------------------------------------------------------------------
// Order of entries
// ---------------------------------------------------------------------------

/// Lexicographic order of byte strings, as `str`'s `Ord` compares bytes.
pub open spec fn bytes_lt(a: Seq<u8>, b: Seq<u8>) -> bool
    decreases a.len(),
{
    if a.len() == 0 {
        b.len() > 0
    } else if b.len() == 0 {
        false
    } else if a[0] < b[0] {
        true
    } else if a[0] > b[0] {
        false
    } else {
        bytes_lt(a.drop_first(), b.drop_first())
    }
}

/// The bytes by which an entry's name is compared: its lowercase form.
pub open spec fn name_key(e: RepoEntry) -> Seq<u8> {
    encode_utf8(lowercase_of(e.name@))
}

/// Whether `a` is listed before `b`: folders before everything else, then by
/// lowercase name.
pub open spec fn entry_lt(a: RepoEntry, b: RepoEntry) -> bool {
    ||| (a.is_dir && !b.is_dir)
    ||| (a.is_dir == b.is_dir && bytes_lt(name_key(a), name_key(b)))
}

/// Whether two entries compare equal (neither is listed before the other).
pub open spec fn same_key(a: RepoEntry, b: RepoEntry) -> bool {
    a.is_dir == b.is_dir && name_key(a) == name_key(b)
}

/// `r` is `s` put in order by `perm`: `r[i]` is `s[perm[i]]`, `perm` takes
/// each index once, `r` is ordered, and entries that compare equal keep
/// their order in `s`.
pub open spec fn is_stable_sorting(r: Seq<RepoEntry>, s: Seq<RepoEntry>, perm: Seq<int>) -> bool {
    &&& r.len() == s.len()
    &&& perm.len() == s.len()
    &&& forall|j: int| 0 <= j < perm.len() ==> 0 <= #[trigger] perm[j] < s.len() && r[j] == s[perm[j]]
    &&& forall|a: int, b: int| 0 <= a < b < perm.len() ==> #[trigger] perm[a] != #[trigger] perm[b]
    &&& forall|a: int, b: int| 0 <= a < b < r.len() ==> !entry_lt(#[trigger] r[b], #[trigger] r[a])
    &&& forall|a: int, b: int|
        0 <= a < b < r.len() && same_key(#[trigger] r[a], #[trigger] r[b]) ==> perm[a] < perm[b]
}

/// `r` is the stable sort of `s`.
pub open spec fn is_stable_sort_of(r: Seq<RepoEntry>, s: Seq<RepoEntry>) -> bool {
    exists|perm: Seq<int>| is_stable_sorting(r, s, perm)
}

pub proof fn lemma_bytes_lt_irreflexive(a: Seq<u8>)
    ensures
        !bytes_lt(a, a),
    decreases a.len(),
{
    if a.len() > 0 {
        lemma_bytes_lt_irreflexive(a.drop_first());
    }
}

pub proof fn lemma_bytes_lt_asymmetric(a: Seq<u8>, b: Seq<u8>)
    ensures
        bytes_lt(a, b) ==> !bytes_lt(b, a),
    decreases a.len(),
{
    if a.len() > 0 && b.len() > 0 && a[0] == b[0] {
        lemma_bytes_lt_asymmetric(a.drop_first(), b.drop_first());
    }
}

pub proof fn lemma_bytes_lt_transitive(a: Seq<u8>, b: Seq<u8>, c: Seq<u8>)
    requires
        bytes_lt(a, b),
        bytes_lt(b, c),
    ensures
        bytes_lt(a, c),
    decreases a.len(),
{
    if a.len() > 0 && b.len() > 0 && c.len() > 0 && a[0] == b[0] && b[0] == c[0] {
        lemma_bytes_lt_transitive(a.drop_first(), b.drop_first(), c.drop_first());
    }
}

pub proof fn lemma_bytes_lt_total(a: Seq<u8>, b: Seq<u8>)
    ensures
        a == b || bytes_lt(a, b) || bytes_lt(b, a),
    decreases a.len(),
{
    if a.len() == 0 && b.len() == 0 {
        assert(a =~= b);
    } else if a.len() > 0 && b.len() > 0 && a[0] == b[0] {
        lemma_bytes_lt_total(a.drop_first(), b.drop_first());
        if a.drop_first() == b.drop_first() {
            assert(a =~= b) by {
                assert forall|k: int| 0 <= k < a.len() implies a[k] == b[k] by {
                    if k > 0 {
                        assert(a[k] == a.drop_first()[k - 1]);
                        assert(b[k] == b.drop_first()[k - 1]);
                    }
                }
            }
        }
    }
}

/// Listing order is a strict order.
pub proof fn lemma_entry_lt_asymmetric(a: RepoEntry, b: RepoEntry)
    ensures
        entry_lt(a, b) ==> !entry_lt(b, a),
{
    lemma_bytes_lt_asymmetric(name_key(a), name_key(b));
}

/// Entries that compare equal are listed before neither way.
pub proof fn lemma_same_key_not_lt(a: RepoEntry, b: RepoEntry)
    ensures
        same_key(a, b) ==> !entry_lt(a, b) && !entry_lt(b, a),
{
    lemma_bytes_lt_irreflexive(name_key(a));
}

/// Any two entries are either in order one way or the other, or compare
/// equal.
pub proof fn lemma_entry_total(a: RepoEntry, b: RepoEntry)
    ensures
        entry_lt(a, b) || entry_lt(b, a) || same_key(a, b),
{
    lemma_bytes_lt_total(name_key(a), name_key(b));
}

/// Listing order is transitive.
pub proof fn lemma_entry_lt_transitive(x: RepoEntry, y: RepoEntry, z: RepoEntry)
    requires
        entry_lt(x, y),
        entry_lt(y, z),
    ensures
        entry_lt(x, z),
{
    if x.is_dir == y.is_dir && y.is_dir == z.is_dir {
        lemma_bytes_lt_transitive(name_key(x), name_key(y), name_key(z));
    }
}

/// "Not listed before" is transitive.
pub proof fn lemma_entry_not_lt_transitive(x: RepoEntry, y: RepoEntry, z: RepoEntry)
    requires
        !entry_lt(x, y),
        !entry_lt(y, z),
    ensures
        !entry_lt(x, z),
{
    // z <= y <= x by totality; then z <= x, which excludes x < z.
    lemma_entry_total(x, y);
    lemma_entry_total(y, z);
    lemma_entry_lt_asymmetric(z, x);
    lemma_bytes_lt_irreflexive(name_key(x));
    if entry_lt(z, y) && entry_lt(y, x) {
        lemma_entry_lt_transitive(z, y, x);
    }
}

/// Whether byte string `a` comes before `b`.
pub fn bytes_less(a: &[u8], b: &[u8]) -> (r: bool)
    ensures
        r == bytes_lt(a@, b@),
{
    let mut i: usize = 0;
    assert(a@.skip(0) =~= a@);
    assert(b@.skip(0) =~= b@);
    loop
        invariant
            i <= a@.len(),
            i <= b@.len(),
            bytes_lt(a@, b@) == bytes_lt(a@.skip(i as int), b@.skip(i as int)),
        decreases a@.len() - i,
    {
        if i == b.len() {
            return false;
        }
        if i == a.len() {
            return true;
        }
        if a[i] < b[i] {
            return true;
        }
        if a[i] > b[i] {
            return false;
        }
        assert(a@.skip(i as int).drop_first() =~= a@.skip(i + 1));
        assert(b@.skip(i as int).drop_first() =~= b@.skip(i + 1));
        i = i + 1;
    }
}

/// Whether entry `a`, whose lowercase name is `ka`, is listed before entry
/// `b`, whose lowercase name is `kb`.
fn entry_less(a: &RepoEntry, ka: &String, b: &RepoEntry, kb: &String) -> (r: bool)
    requires
        ka@ == lowercase_of(a.name@),
        kb@ == lowercase_of(b.name@),
    ensures
        r == entry_lt(*a, *b),
{
    if a.is_dir && !b.is_dir {
        true
    } else if !a.is_dir && b.is_dir {
        false
    } else {
        bytes_less(ka.as_str().as_bytes(), kb.as_str().as_bytes())
    }
}

/// How far an insertion sort has come: the first `i` entries are `orig`'s
/// first `i` entries in stable order, the rest are untouched.
pub open spec fn sort_progress(
    items: Seq<RepoEntry>,
    orig: Seq<RepoEntry>,
    perm: Seq<int>,
    i: int,
) -> bool {
    &&& items.len() == orig.len()
    &&& perm.len() == orig.len()
    &&& 0 <= i <= orig.len()
    &&& forall|j: int|
        0 <= j < perm.len() ==> 0 <= #[trigger] perm[j] < orig.len() && items[j] == orig[perm[j]]
    &&& forall|j: int| i <= j < perm.len() ==> #[trigger] perm[j] == j
    &&& forall|j: int| 0 <= j < i ==> #[trigger] perm[j] < i
    &&& forall|a: int, b: int| 0 <= a < b < perm.len() ==> #[trigger] perm[a] != #[trigger] perm[b]
    &&& forall|a: int, b: int| 0 <= a < b < i ==> !entry_lt(#[trigger] items[b], #[trigger] items[a])
    &&& forall|a: int, b: int|
        0 <= a < b < i && same_key(#[trigger] items[a], #[trigger] items[b]) ==> perm[a] < perm[b]
}

/// Where index `j` of the sequence after moving index `i` to `p` came from.
pub open spec fn moved_from(j: int, i: int, p: int) -> int {
    if j < p {
        j
    } else if j == p {
        i
    } else if j <= i {
        j - 1
    } else {
        j
    }
}

proof fn lemma_move_index<T>(s: Seq<T>, i: int, p: int)
    requires
        0 <= p <= i < s.len(),
    ensures
        s.remove(i).insert(p, s[i]).len() == s.len(),
        forall|j: int|
            0 <= j < s.len() ==> #[trigger] s.remove(i).insert(p, s[i])[j] == s[moved_from(j, i, p)],
{
    let t = s.remove(i).insert(p, s[i]);
    assert forall|j: int| 0 <= j < s.len() implies #[trigger] t[j] == s[moved_from(j, i, p)] by {
        if j < p {
        } else if j == p {
        } else {
            assert(t[j] == s.remove(i)[j - 1]);
        }
    }
}

/// Moving entry `i` in front of the first of the sorted prefix that it
/// precedes keeps the insertion sort's progress.
proof fn lemma_sort_step(items: Seq<RepoEntry>, orig: Seq<RepoEntry>, perm: Seq<int>, i: int, p: int)
    requires
        sort_progress(items, orig, perm, i),
        i < items.len(),
        0 <= p <= i,
        forall|q: int| p <= q < i ==> entry_lt(items[i], #[trigger] items[q]),
        p > 0 ==> !entry_lt(items[i], items[p - 1]),
    ensures
        sort_progress(items.remove(i).insert(p, items[i]), orig, perm.remove(i).insert(p, i), i + 1),
{
    let ni = items.remove(i).insert(p, items[i]);
    let np = perm.remove(i).insert(p, i);
    lemma_move_index(items, i, p);
    lemma_move_index(perm, i, p);
    assert(perm[i] == i);
    assert(np[p] == i);
    assert forall|j: int| 0 <= j < np.len() implies 0 <= #[trigger] np[j] < orig.len() && ni[j]
        == orig[np[j]] by {
        assert(np[j] == perm[moved_from(j, i, p)]);
        assert(ni[j] == items[moved_from(j, i, p)]);
    }
    assert forall|j: int| i + 1 <= j < np.len() implies #[trigger] np[j] == j by {
        assert(np[j] == perm[moved_from(j, i, p)]);
    }
    assert forall|j: int| 0 <= j < i + 1 implies #[trigger] np[j] < i + 1 by {
        assert(np[j] == perm[moved_from(j, i, p)]);
    }
    assert forall|a: int, b: int| 0 <= a < b < np.len() implies #[trigger] np[a]
        != #[trigger] np[b] by {
        assert(np[a] == perm[moved_from(a, i, p)]);
        assert(np[b] == perm[moved_from(b, i, p)]);
        let ma = moved_from(a, i, p);
        let mb = moved_from(b, i, p);
        assert(ma != mb);
        if ma < mb {
            assert(perm[ma] != perm[mb]);
        } else {
            assert(perm[mb] != perm[ma]);
        }
    }
    assert forall|a: int, b: int| 0 <= a < b < i + 1 implies !entry_lt(
        #[trigger] ni[b],
        #[trigger] ni[a],
    ) by {
        let ma = moved_from(a, i, p);
        let mb = moved_from(b, i, p);
        assert(ni[a] == items[ma]);
        assert(ni[b] == items[mb]);
        if a == p {
            // b > p: b came from q = b - 1 in [p, i), which entry i precedes
            assert(entry_lt(items[i], items[b - 1]));
            lemma_entry_lt_asymmetric(items[i], items[b - 1]);
        } else if b == p {
            // a < p: items[a] <= items[p - 1] <= items[i]
            if a < p - 1 {
                assert(!entry_lt(items[p - 1], items[a]));
                lemma_entry_not_lt_transitive(items[i], items[p - 1], items[a]);
            }
        } else {
            assert(ma < mb);
            assert(mb < i);
            assert(!entry_lt(items[mb], items[ma]));
        }
    }
    assert forall|a: int, b: int|
        0 <= a < b < i + 1 && same_key(#[trigger] ni[a], #[trigger] ni[b]) implies np[a]
        < np[b] by {
        let ma = moved_from(a, i, p);
        let mb = moved_from(b, i, p);
        assert(ni[a] == items[ma]);
        assert(ni[b] == items[mb]);
        assert(np[a] == perm[ma]);
        assert(np[b] == perm[mb]);
        if a == p {
            assert(entry_lt(items[i], items[b - 1]));
            lemma_same_key_not_lt(items[i], items[b - 1]);
        } else if b == p {
            assert(perm[ma] < i);
        } else {
            assert(ma < mb);
            assert(same_key(items[ma], items[mb]));
        }
    }
}

/// Sorts a listing in place: folders first, then by lowercase name, entries
/// that compare equal keeping their order.
pub fn sort_items(items: &mut Vec<RepoEntry>)
    ensures
        is_stable_sort_of(final(items)@, old(items)@),
{
    let n = items.len();
    let mut keys: Vec<String> = Vec::new();
    let mut k: usize = 0;
    while k < n
        invariant
            items@ == old(items)@,
            n == items@.len(),
            k <= n,
            keys@.len() == k,
            forall|j: int| 0 <= j < k ==> #[trigger] keys@[j]@ == lowercase_of(items@[j].name@),
        decreases n - k,
    {
        let lower = to_lowercase(items[k].name.as_str());
        keys.push(lower);
        k = k + 1;
    }
    let ghost orig = items@;
    let ghost mut perm: Seq<int> = Seq::new(n as nat, |j: int| j);
    let mut i: usize = 0;
    while i < n
        invariant
            orig == old(items)@,
            n == items@.len(),
            n == keys@.len(),
            i <= n,
            sort_progress(items@, orig, perm, i as int),
            forall|j: int| 0 <= j < n ==> #[trigger] keys@[j]@ == lowercase_of(items@[j].name@),
        decreases n - i,
    {
        let mut p: usize = i;
        while p > 0 && entry_less(&items[i], &keys[i], &items[p - 1], &keys[p - 1])
            invariant
                n == items@.len(),
                n == keys@.len(),
                i < n,
                p <= i,
                forall|j: int| 0 <= j < n ==> #[trigger] keys@[j]@ == lowercase_of(items@[j].name@),
                forall|q: int| p <= q < i ==> entry_lt(items@[i as int], #[trigger] items@[q]),
            decreases p,
        {
            p = p - 1;
        }
        proof {
            lemma_sort_step(items@, orig, perm, i as int, p as int);
            lemma_move_index(keys@, i as int, p as int);
            lemma_move_index(items@, i as int, p as int);
        }
        let ghost old_keys = keys@;
        let ghost old_items = items@;
        let x = items.remove(i);
        items.insert(p, x);
        let kx = keys.remove(i);
        keys.insert(p, kx);
        proof {
            perm = perm.remove(i as int).insert(p as int, i as int);
            assert(items@ == old_items.remove(i as int).insert(p as int, old_items[i as int]));
            assert(keys@ == old_keys.remove(i as int).insert(p as int, old_keys[i as int]));
            assert forall|j: int| 0 <= j < n implies #[trigger] keys@[j]@ == lowercase_of(
                items@[j].name@,
            ) by {
                assert(keys@[j] == old_keys[moved_from(j, i as int, p as int)]);
                assert(items@[j] == old_items[moved_from(j, i as int, p as int)]);
            }
        }
        i = i + 1;
    }
    proof {
        assert(is_stable_sorting(items@, orig, perm));
    }
}


// ---------------------------------------------------------------------------
// Kinds of files
// ---------------------------------------------------------------------------

/// The (lowercase) extensions of files that are not shown as text.
pub open spec fn is_binary_name(e: Seq<char>) -> bool {
    ||| e == "png"@
    ||| e == "jpg"@
    ||| e == "jpeg"@
    ||| e == "gif"@
    ||| e == "ico"@
    ||| e == "webp"@
    ||| e == "svg"@
    ||| e == "bmp"@
    ||| e == "tiff"@
    ||| e == "zip"@
    ||| e == "tar"@
    ||| e == "gz"@
    ||| e == "bz2"@
    ||| e == "xz"@
    ||| e == "7z"@
    ||| e == "rar"@
    ||| e == "pdf"@
    ||| e == "exe"@
    ||| e == "bin"@
    ||| e == "dll"@
    ||| e == "so"@
    ||| e == "dylib"@
    ||| e == "class"@
    ||| e == "wasm"@
    ||| e == "mp3"@
    ||| e == "mp4"@
    ||| e == "wav"@
    ||| e == "flac"@
    ||| e == "ogg"@
    ||| e == "webm"@
    ||| e == "mkv"@
    ||| e == "avi"@
    ||| e == "ttf"@
    ||| e == "otf"@
    ||| e == "woff"@
    ||| e == "woff2"@
    ||| e == "eot"@
    ||| e == "iso"@
    ||| e == "dmg"@
    ||| e == "pkg"@
    ||| e == "deb"@
    ||| e == "rpm"@
}

/// The extensions that count as binary are exactly the image, archive,
/// document, executable and library, media, font, disk image and package
/// extensions below; source and text extensions such as `py`, `rs` or `md`
/// are not among them.
pub proof fn lemma_binary_extensions(e: Seq<char>)
    ensures
        is_binary_name(e) <==> set![
            "png"@, "jpg"@, "jpeg"@, "gif"@, "ico"@, "webp"@, "svg"@, "bmp"@, "tiff"@, "zip"@,
            "tar"@, "gz"@, "bz2"@, "xz"@, "7z"@, "rar"@, "pdf"@, "exe"@, "bin"@, "dll"@, "so"@,
            "dylib"@, "class"@, "wasm"@, "mp3"@, "mp4"@, "wav"@, "flac"@, "ogg"@, "webm"@,
            "mkv"@, "avi"@, "ttf"@, "otf"@, "woff"@, "woff2"@, "eot"@, "iso"@, "dmg"@, "pkg"@,
            "deb"@, "rpm"@,
        ].contains(e),
        set![
            "py"@, "rs"@, "js"@, "ts"@, "c"@, "h"@, "go"@, "java"@, "md"@, "txt"@, "json"@,
            "toml"@, "yaml"@, "html"@, "css"@, "sh"@,
        ].contains(e) ==> !is_binary_name(e),
{
    reveal_strlit("png");
    reveal_strlit("jpg");
    reveal_strlit("jpeg");
    reveal_strlit("gif");
    reveal_strlit("ico");
    reveal_strlit("webp");
    reveal_strlit("svg");
    reveal_strlit("bmp");
    reveal_strlit("tiff");
    reveal_strlit("zip");
    reveal_strlit("tar");
    reveal_strlit("gz");
    reveal_strlit("bz2");
    reveal_strlit("xz");
    reveal_strlit("7z");
    reveal_strlit("rar");
    reveal_strlit("pdf");
    reveal_strlit("exe");
    reveal_strlit("bin");
    reveal_strlit("dll");
    reveal_strlit("so");
    reveal_strlit("dylib");
    reveal_strlit("class");
    reveal_strlit("wasm");
    reveal_strlit("mp3");
    reveal_strlit("mp4");
    reveal_strlit("wav");
    reveal_strlit("flac");
    reveal_strlit("ogg");
    reveal_strlit("webm");
    reveal_strlit("mkv");
    reveal_strlit("avi");
    reveal_strlit("ttf");
    reveal_strlit("otf");
    reveal_strlit("woff");
    reveal_strlit("woff2");
    reveal_strlit("eot");
    reveal_strlit("iso");
    reveal_strlit("dmg");
    reveal_strlit("pkg");
    reveal_strlit("deb");
    reveal_strlit("rpm");
    reveal_strlit("py");
    reveal_strlit("rs");
    reveal_strlit("js");
    reveal_strlit("ts");
    reveal_strlit("c");
    reveal_strlit("h");
    reveal_strlit("go");
    reveal_strlit("java");
    reveal_strlit("md");
    reveal_strlit("txt");
    reveal_strlit("json");
    reveal_strlit("toml");
    reveal_strlit("yaml");
    reveal_strlit("html");
    reveal_strlit("css");
    reveal_strlit("sh");
    assert("png"@.len() == 3 && "png"@[0] == 'p' && "png"@[1] == 'n' && "png"@[2] == 'g');
    assert("jpg"@.len() == 3 && "jpg"@[0] == 'j' && "jpg"@[1] == 'p' && "jpg"@[2] == 'g');
    assert("jpeg"@.len() == 4 && "jpeg"@[0] == 'j' && "jpeg"@[1] == 'p' && "jpeg"@[2] == 'e' && "jpeg"@[3] == 'g');
    assert("gif"@.len() == 3 && "gif"@[0] == 'g' && "gif"@[1] == 'i' && "gif"@[2] == 'f');
    assert("ico"@.len() == 3 && "ico"@[0] == 'i' && "ico"@[1] == 'c' && "ico"@[2] == 'o');
    assert("webp"@.len() == 4 && "webp"@[0] == 'w' && "webp"@[1] == 'e' && "webp"@[2] == 'b' && "webp"@[3] == 'p');
    assert("svg"@.len() == 3 && "svg"@[0] == 's' && "svg"@[1] == 'v' && "svg"@[2] == 'g');
    assert("bmp"@.len() == 3 && "bmp"@[0] == 'b' && "bmp"@[1] == 'm' && "bmp"@[2] == 'p');
    assert("tiff"@.len() == 4 && "tiff"@[0] == 't' && "tiff"@[1] == 'i' && "tiff"@[2] == 'f' && "tiff"@[3] == 'f');
    assert("zip"@.len() == 3 && "zip"@[0] == 'z' && "zip"@[1] == 'i' && "zip"@[2] == 'p');
    assert("tar"@.len() == 3 && "tar"@[0] == 't' && "tar"@[1] == 'a' && "tar"@[2] == 'r');
    assert("gz"@.len() == 2 && "gz"@[0] == 'g' && "gz"@[1] == 'z');
    assert("bz2"@.len() == 3 && "bz2"@[0] == 'b' && "bz2"@[1] == 'z' && "bz2"@[2] == '2');
    assert("xz"@.len() == 2 && "xz"@[0] == 'x' && "xz"@[1] == 'z');
    assert("7z"@.len() == 2 && "7z"@[0] == '7' && "7z"@[1] == 'z');
    assert("rar"@.len() == 3 && "rar"@[0] == 'r' && "rar"@[1] == 'a' && "rar"@[2] == 'r');
    assert("pdf"@.len() == 3 && "pdf"@[0] == 'p' && "pdf"@[1] == 'd' && "pdf"@[2] == 'f');
    assert("exe"@.len() == 3 && "exe"@[0] == 'e' && "exe"@[1] == 'x' && "exe"@[2] == 'e');
    assert("bin"@.len() == 3 && "bin"@[0] == 'b' && "bin"@[1] == 'i' && "bin"@[2] == 'n');
    assert("dll"@.len() == 3 && "dll"@[0] == 'd' && "dll"@[1] == 'l' && "dll"@[2] == 'l');
    assert("so"@.len() == 2 && "so"@[0] == 's' && "so"@[1] == 'o');
    assert("dylib"@.len() == 5 && "dylib"@[0] == 'd' && "dylib"@[1] == 'y' && "dylib"@[2] == 'l' && "dylib"@[3] == 'i' && "dylib"@[4] == 'b');
    assert("class"@.len() == 5 && "class"@[0] == 'c' && "class"@[1] == 'l' && "class"@[2] == 'a' && "class"@[3] == 's' && "class"@[4] == 's');
    assert("wasm"@.len() == 4 && "wasm"@[0] == 'w' && "wasm"@[1] == 'a' && "wasm"@[2] == 's' && "wasm"@[3] == 'm');
    assert("mp3"@.len() == 3 && "mp3"@[0] == 'm' && "mp3"@[1] == 'p' && "mp3"@[2] == '3');
    assert("mp4"@.len() == 3 && "mp4"@[0] == 'm' && "mp4"@[1] == 'p' && "mp4"@[2] == '4');
    assert("wav"@.len() == 3 && "wav"@[0] == 'w' && "wav"@[1] == 'a' && "wav"@[2] == 'v');
    assert("flac"@.len() == 4 && "flac"@[0] == 'f' && "flac"@[1] == 'l' && "flac"@[2] == 'a' && "flac"@[3] == 'c');
    assert("ogg"@.len() == 3 && "ogg"@[0] == 'o' && "ogg"@[1] == 'g' && "ogg"@[2] == 'g');
    assert("webm"@.len() == 4 && "webm"@[0] == 'w' && "webm"@[1] == 'e' && "webm"@[2] == 'b' && "webm"@[3] == 'm');
    assert("mkv"@.len() == 3 && "mkv"@[0] == 'm' && "mkv"@[1] == 'k' && "mkv"@[2] == 'v');
    assert("avi"@.len() == 3 && "avi"@[0] == 'a' && "avi"@[1] == 'v' && "avi"@[2] == 'i');
    assert("ttf"@.len() == 3 && "ttf"@[0] == 't' && "ttf"@[1] == 't' && "ttf"@[2] == 'f');
    assert("otf"@.len() == 3 && "otf"@[0] == 'o' && "otf"@[1] == 't' && "otf"@[2] == 'f');
    assert("woff"@.len() == 4 && "woff"@[0] == 'w' && "woff"@[1] == 'o' && "woff"@[2] == 'f' && "woff"@[3] == 'f');
    assert("woff2"@.len() == 5 && "woff2"@[0] == 'w' && "woff2"@[1] == 'o' && "woff2"@[2] == 'f' && "woff2"@[3] == 'f' && "woff2"@[4] == '2');
    assert("eot"@.len() == 3 && "eot"@[0] == 'e' && "eot"@[1] == 'o' && "eot"@[2] == 't');
    assert("iso"@.len() == 3 && "iso"@[0] == 'i' && "iso"@[1] == 's' && "iso"@[2] == 'o');
    assert("dmg"@.len() == 3 && "dmg"@[0] == 'd' && "dmg"@[1] == 'm' && "dmg"@[2] == 'g');
    assert("pkg"@.len() == 3 && "pkg"@[0] == 'p' && "pkg"@[1] == 'k' && "pkg"@[2] == 'g');
    assert("deb"@.len() == 3 && "deb"@[0] == 'd' && "deb"@[1] == 'e' && "deb"@[2] == 'b');
    assert("rpm"@.len() == 3 && "rpm"@[0] == 'r' && "rpm"@[1] == 'p' && "rpm"@[2] == 'm');
    assert("py"@.len() == 2 && "py"@[0] == 'p' && "py"@[1] == 'y');
    assert("rs"@.len() == 2 && "rs"@[0] == 'r' && "rs"@[1] == 's');
    assert("js"@.len() == 2 && "js"@[0] == 'j' && "js"@[1] == 's');
    assert("ts"@.len() == 2 && "ts"@[0] == 't' && "ts"@[1] == 's');
    assert("c"@.len() == 1 && "c"@[0] == 'c');
    assert("h"@.len() == 1 && "h"@[0] == 'h');
    assert("go"@.len() == 2 && "go"@[0] == 'g' && "go"@[1] == 'o');
    assert("java"@.len() == 4 && "java"@[0] == 'j' && "java"@[1] == 'a' && "java"@[2] == 'v' && "java"@[3] == 'a');
    assert("md"@.len() == 2 && "md"@[0] == 'm' && "md"@[1] == 'd');
    assert("txt"@.len() == 3 && "txt"@[0] == 't' && "txt"@[1] == 'x' && "txt"@[2] == 't');
    assert("json"@.len() == 4 && "json"@[0] == 'j' && "json"@[1] == 's' && "json"@[2] == 'o' && "json"@[3] == 'n');
    assert("toml"@.len() == 4 && "toml"@[0] == 't' && "toml"@[1] == 'o' && "toml"@[2] == 'm' && "toml"@[3] == 'l');
    assert("yaml"@.len() == 4 && "yaml"@[0] == 'y' && "yaml"@[1] == 'a' && "yaml"@[2] == 'm' && "yaml"@[3] == 'l');
    assert("html"@.len() == 4 && "html"@[0] == 'h' && "html"@[1] == 't' && "html"@[2] == 'm' && "html"@[3] == 'l');
    assert("css"@.len() == 3 && "css"@[0] == 'c' && "css"@[1] == 's' && "css"@[2] == 's');
    assert("sh"@.len() == 2 && "sh"@[0] == 's' && "sh"@[1] == 'h');
}

/// Whether a file with extension `ext` holds binary content (images,
/// archives, executables, media, fonts, disk images and packages), in any
/// letter case.
pub fn is_binary_extension(ext: &str) -> (r: bool)
    ensures
        r == is_binary_name(lowercase_of(ext@)),
        is_ascii_chars(ext@) ==> r == is_binary_name(ascii_lowercase(ext@)),
{
    let lower = to_lowercase(ext);
    let c = chars_of(lower.as_str());
    chars_eq_str(&c, "png")
        || chars_eq_str(&c, "jpg")
        || chars_eq_str(&c, "jpeg")
        || chars_eq_str(&c, "gif")
        || chars_eq_str(&c, "ico")
        || chars_eq_str(&c, "webp")
        || chars_eq_str(&c, "svg")
        || chars_eq_str(&c, "bmp")
        || chars_eq_str(&c, "tiff")
        || chars_eq_str(&c, "zip")
        || chars_eq_str(&c, "tar")
        || chars_eq_str(&c, "gz")
        || chars_eq_str(&c, "bz2")
        || chars_eq_str(&c, "xz")
        || chars_eq_str(&c, "7z")
        || chars_eq_str(&c, "rar")
        || chars_eq_str(&c, "pdf")
        || chars_eq_str(&c, "exe")
        || chars_eq_str(&c, "bin")
        || chars_eq_str(&c, "dll")
        || chars_eq_str(&c, "so")
        || chars_eq_str(&c, "dylib")
        || chars_eq_str(&c, "class")
        || chars_eq_str(&c, "wasm")
        || chars_eq_str(&c, "mp3")
        || chars_eq_str(&c, "mp4")
        || chars_eq_str(&c, "wav")
        || chars_eq_str(&c, "flac")
        || chars_eq_str(&c, "ogg")
        || chars_eq_str(&c, "webm")
        || chars_eq_str(&c, "mkv")
        || chars_eq_str(&c, "avi")
        || chars_eq_str(&c, "ttf")
        || chars_eq_str(&c, "otf")
        || chars_eq_str(&c, "woff")
        || chars_eq_str(&c, "woff2")
        || chars_eq_str(&c, "eot")
        || chars_eq_str(&c, "iso")
        || chars_eq_str(&c, "dmg")
        || chars_eq_str(&c, "pkg")
        || chars_eq_str(&c, "deb")
        || chars_eq_str(&c, "rpm")
}

/// The extension of a name as the browser reads it: none counts as empty.
pub open spec fn ext_text(name: Seq<char>) -> Seq<char> {
    match extension_of(name) {
        Some(e) => e,
        None => Seq::empty(),
    }
}

/// The extension of a bare file name, none counting as empty.
pub open spec fn plain_ext_text(name: Seq<char>) -> Seq<char> {
    match plain_extension(name) {
        Some(e) => e,
        None => Seq::empty(),
    }
}

/// The icon for a file with the given lowercase extension.
pub open spec fn icon_for_extension(e: Seq<char>) -> Seq<char> {
    if e == "rs"@ {
        "🦀"@
    } else if e == "py"@ {
        "🐍"@
    } else if e == "js"@ || e == "jsx"@ || e == "ts"@ || e == "tsx"@ {
        "📜"@
    } else if e == "json"@ || e == "toml"@ || e == "yaml"@ || e == "yml"@ {
        "⚙️"@
    } else if e == "md"@ || e == "txt"@ || e == "rst"@ {
        "📝"@
    } else if e == "png"@ || e == "jpg"@ || e == "jpeg"@ || e == "gif"@ || e == "svg"@ || e == "webp"@ {
        "🖼️"@
    } else if e == "zip"@ || e == "tar"@ || e == "gz"@ || e == "bz2"@ || e == "7z"@ {
        "📦"@
    } else if e == "sh"@ || e == "bash"@ || e == "zsh"@ {
        "🐚"@
    } else if e == "html"@ || e == "css"@ || e == "scss"@ {
        "🌐"@
    } else if e == "lock"@ {
        "🔒"@
    } else {
        "📄"@
    }
}

/// The icon of an entry: folders and Git LFS files have their own, other
/// files go by their extension in any letter case.
pub open spec fn file_icon(name: Seq<char>, is_dir: bool, is_lfs: bool) -> Seq<char> {
    if is_dir {
        "📁"@
    } else if is_lfs {
        "📦"@
    } else {
        icon_for_extension(lowercase_of(ext_text(name)))
    }
}

/// The icon of an entry: a folder, then a Git LFS file, have their own; a
/// plain file is shown by its extension in lowercase: Rust, Python,
/// JavaScript and TypeScript, configuration, text, image, archive, shell,
/// web and lock files each by theirs, any other file as a document.
pub proof fn lemma_file_icons(name: Seq<char>, is_dir: bool, is_lfs: bool)
    ensures
        ({
            let e = lowercase_of(ext_text(name));
            let icon = file_icon(name, is_dir, is_lfs);
            let file = !is_dir && !is_lfs;
            &&& is_dir ==> icon == "📁"@
            &&& !is_dir && is_lfs ==> icon == "📦"@
            &&& file && e == "rs"@ ==> icon == "🦀"@
            &&& file && e == "py"@ ==> icon == "🐍"@
            &&& file && set!["js"@, "jsx"@, "ts"@, "tsx"@].contains(e) ==> icon == "📜"@
            &&& file && set!["json"@, "toml"@, "yaml"@, "yml"@].contains(e) ==> icon == "⚙️"@
            &&& file && set!["md"@, "txt"@, "rst"@].contains(e) ==> icon == "📝"@
            &&& file && set!["png"@, "jpg"@, "jpeg"@, "gif"@, "svg"@, "webp"@].contains(e) ==> icon
                == "🖼️"@
            &&& file && set!["zip"@, "tar"@, "gz"@, "bz2"@, "7z"@].contains(e) ==> icon == "📦"@
            &&& file && set!["sh"@, "bash"@, "zsh"@].contains(e) ==> icon == "🐚"@
            &&& file && set!["html"@, "css"@, "scss"@].contains(e) ==> icon == "🌐"@
            &&& file && e == "lock"@ ==> icon == "🔒"@
            &&& file && !set![
                "rs"@, "py"@, "js"@, "jsx"@, "ts"@, "tsx"@, "json"@, "toml"@, "yaml"@, "yml"@,
                "md"@, "txt"@, "rst"@, "png"@, "jpg"@, "jpeg"@, "gif"@, "svg"@, "webp"@,
                "zip"@, "tar"@, "gz"@, "bz2"@, "7z"@, "sh"@, "bash"@, "zsh"@, "html"@, "css"@,
                "scss"@, "lock"@,
            ].contains(e) ==> icon == "📄"@
        }),
{
    reveal_strlit("rs");
    reveal_strlit("py");
    reveal_strlit("js");
    reveal_strlit("jsx");
    reveal_strlit("ts");
    reveal_strlit("tsx");
    reveal_strlit("json");
    reveal_strlit("toml");
    reveal_strlit("yaml");
    reveal_strlit("yml");
    reveal_strlit("md");
    reveal_strlit("txt");
    reveal_strlit("rst");
    reveal_strlit("png");
    reveal_strlit("jpg");
    reveal_strlit("jpeg");
    reveal_strlit("gif");
    reveal_strlit("svg");
    reveal_strlit("webp");
    reveal_strlit("zip");
    reveal_strlit("tar");
    reveal_strlit("gz");
    reveal_strlit("bz2");
    reveal_strlit("7z");
    reveal_strlit("sh");
    reveal_strlit("bash");
    reveal_strlit("zsh");
    reveal_strlit("html");
    reveal_strlit("css");
    reveal_strlit("scss");
    reveal_strlit("lock");
    assert("rs"@.len() == 2 && "rs"@[0] == 'r' && "rs"@[1] == 's');
    assert("py"@.len() == 2 && "py"@[0] == 'p' && "py"@[1] == 'y');
    assert("js"@.len() == 2 && "js"@[0] == 'j' && "js"@[1] == 's');
    assert("jsx"@.len() == 3 && "jsx"@[0] == 'j' && "jsx"@[1] == 's' && "jsx"@[2] == 'x');
    assert("ts"@.len() == 2 && "ts"@[0] == 't' && "ts"@[1] == 's');
    assert("tsx"@.len() == 3 && "tsx"@[0] == 't' && "tsx"@[1] == 's' && "tsx"@[2] == 'x');
    assert("json"@.len() == 4 && "json"@[0] == 'j' && "json"@[1] == 's' && "json"@[2] == 'o' && "json"@[3] == 'n');
    assert("toml"@.len() == 4 && "toml"@[0] == 't' && "toml"@[1] == 'o' && "toml"@[2] == 'm' && "toml"@[3] == 'l');
    assert("yaml"@.len() == 4 && "yaml"@[0] == 'y' && "yaml"@[1] == 'a' && "yaml"@[2] == 'm' && "yaml"@[3] == 'l');
    assert("yml"@.len() == 3 && "yml"@[0] == 'y' && "yml"@[1] == 'm' && "yml"@[2] == 'l');
    assert("md"@.len() == 2 && "md"@[0] == 'm' && "md"@[1] == 'd');
    assert("txt"@.len() == 3 && "txt"@[0] == 't' && "txt"@[1] == 'x' && "txt"@[2] == 't');
    assert("rst"@.len() == 3 && "rst"@[0] == 'r' && "rst"@[1] == 's' && "rst"@[2] == 't');
    assert("png"@.len() == 3 && "png"@[0] == 'p' && "png"@[1] == 'n' && "png"@[2] == 'g');
    assert("jpg"@.len() == 3 && "jpg"@[0] == 'j' && "jpg"@[1] == 'p' && "jpg"@[2] == 'g');
    assert("jpeg"@.len() == 4 && "jpeg"@[0] == 'j' && "jpeg"@[1] == 'p' && "jpeg"@[2] == 'e' && "jpeg"@[3] == 'g');
    assert("gif"@.len() == 3 && "gif"@[0] == 'g' && "gif"@[1] == 'i' && "gif"@[2] == 'f');
    assert("svg"@.len() == 3 && "svg"@[0] == 's' && "svg"@[1] == 'v' && "svg"@[2] == 'g');
    assert("webp"@.len() == 4 && "webp"@[0] == 'w' && "webp"@[1] == 'e' && "webp"@[2] == 'b' && "webp"@[3] == 'p');
    assert("zip"@.len() == 3 && "zip"@[0] == 'z' && "zip"@[1] == 'i' && "zip"@[2] == 'p');
    assert("tar"@.len() == 3 && "tar"@[0] == 't' && "tar"@[1] == 'a' && "tar"@[2] == 'r');
    assert("gz"@.len() == 2 && "gz"@[0] == 'g' && "gz"@[1] == 'z');
    assert("bz2"@.len() == 3 && "bz2"@[0] == 'b' && "bz2"@[1] == 'z' && "bz2"@[2] == '2');
    assert("7z"@.len() == 2 && "7z"@[0] == '7' && "7z"@[1] == 'z');
    assert("sh"@.len() == 2 && "sh"@[0] == 's' && "sh"@[1] == 'h');
    assert("bash"@.len() == 4 && "bash"@[0] == 'b' && "bash"@[1] == 'a' && "bash"@[2] == 's' && "bash"@[3] == 'h');
    assert("zsh"@.len() == 3 && "zsh"@[0] == 'z' && "zsh"@[1] == 's' && "zsh"@[2] == 'h');
    assert("html"@.len() == 4 && "html"@[0] == 'h' && "html"@[1] == 't' && "html"@[2] == 'm' && "html"@[3] == 'l');
    assert("css"@.len() == 3 && "css"@[0] == 'c' && "css"@[1] == 's' && "css"@[2] == 's');
    assert("scss"@.len() == 4 && "scss"@[0] == 's' && "scss"@[1] == 'c' && "scss"@[2] == 's' && "scss"@[3] == 's');
    assert("lock"@.len() == 4 && "lock"@[0] == 'l' && "lock"@[1] == 'o' && "lock"@[2] == 'c' && "lock"@[3] == 'k');
}

/// The icon shown beside an entry of the listing.
pub fn get_file_icon(name: &str, is_dir: bool, is_lfs: bool) -> (r: &'static str)
    ensures
        r@ == file_icon(name@, is_dir, is_lfs),
        !is_dir && !is_lfs && is_plain_file_name(name@) && is_ascii_chars(name@) ==> r@
            == icon_for_extension(ascii_lowercase(plain_ext_text(name@))),
{
    if is_dir {
        return "📁";
    }
    if is_lfs {
        return "📦";
    }
    proof {
        reveal_strlit("");
        assert(""@ =~= Seq::<char>::empty());
    }
    let ext = match file_extension(name) {
        Some(e) => e,
        None => "",
    };
    assert(ext@ == ext_text(name@));
    assert(is_plain_file_name(name@) ==> ext@ == plain_ext_text(name@));
    assert(is_ascii_chars(name@) && is_plain_file_name(name@) ==> is_ascii_chars(ext@)) by {
        if is_ascii_chars(name@) && is_plain_file_name(name@) {
            let d = last_index_of(name@, '.');
            if d > 0 {
                lemma_last_index_bounds(name@, '.');
                assert forall|i: int| 0 <= i < ext@.len() implies '\0' <= #[trigger] ext@[i] <= '\u{7f}' by {
                    assert(ext@[i] == name@[d + 1 + i]);
                }
            }
        }
    }
    let lower = to_lowercase(ext);
    let c = chars_of(lower.as_str());
    if chars_eq_str(&c, "rs") {
        "🦀"
    } else if chars_eq_str(&c, "py") {
        "🐍"
    } else if chars_eq_str(&c, "js") || chars_eq_str(&c, "jsx") || chars_eq_str(&c, "ts")
        || chars_eq_str(&c, "tsx") {
        "📜"
    } else if chars_eq_str(&c, "json") || chars_eq_str(&c, "toml") || chars_eq_str(&c, "yaml")
        || chars_eq_str(&c, "yml") {
        "⚙️"
    } else if chars_eq_str(&c, "md") || chars_eq_str(&c, "txt") || chars_eq_str(&c, "rst") {
        "📝"
    } else if chars_eq_str(&c, "png") || chars_eq_str(&c, "jpg") || chars_eq_str(&c, "jpeg")
        || chars_eq_str(&c, "gif") || chars_eq_str(&c, "svg") || chars_eq_str(&c, "webp") {
        "🖼️"
    } else if chars_eq_str(&c, "zip") || chars_eq_str(&c, "tar") || chars_eq_str(&c, "gz")
        || chars_eq_str(&c, "bz2") || chars_eq_str(&c, "7z") {
        "📦"
    } else if chars_eq_str(&c, "sh") || chars_eq_str(&c, "bash") || chars_eq_str(&c, "zsh") {
        "🐚"
    } else if chars_eq_str(&c, "html") || chars_eq_str(&c, "css") || chars_eq_str(&c, "scss") {
        "🌐"
    } else if chars_eq_str(&c, "lock") {
        "🔒"
    } else {
        "📄"
    }
}

// ---------------------------------------------------------------------------
// Size units
// ---------------------------------------------------------------------------

/// The unit in which a byte count is shown.
#[derive(Clone, Copy, Debug, PartialEq, Eq, Structural)]
pub enum ByteScale {
    Bytes,
    Kilobytes,
    Megabytes,
    Gigabytes,
}

/// The number of bytes in one unit.
pub open spec fn scale_divisor(s: ByteScale) -> nat {
    match s {
        ByteScale::Bytes => 1,
        ByteScale::Kilobytes => 1024,
        ByteScale::Megabytes => 1048576,
        ByteScale::Gigabytes => 1073741824,
    }
}

/// The largest unit of which a byte count holds at least one, bytes for
/// counts under a kilobyte.
pub open spec fn scale_of(bytes: u64) -> ByteScale {
    if bytes >= 1073741824 {
        ByteScale::Gigabytes
    } else if bytes >= 1048576 {
        ByteScale::Megabytes
    } else if bytes >= 1024 {
        ByteScale::Kilobytes
    } else {
        ByteScale::Bytes
    }
}

/// The unit in which `bytes` is shown.
pub fn byte_scale(bytes: u64) -> (s: ByteScale)
    ensures
        s == scale_of(bytes),
{
    if bytes >= 1073741824 {
        ByteScale::Gigabytes
    } else if bytes >= 1048576 {
        ByteScale::Megabytes
    } else if bytes >= 1024 {
        ByteScale::Kilobytes
    } else {
        ByteScale::Bytes
    }
}

impl ByteScale {
    /// The number of bytes in one unit.
    pub fn divisor(self) -> (d: u64)
        ensures
            d == scale_divisor(self),
    {
        match self {
            ByteScale::Bytes => 1,
            ByteScale::Kilobytes => 1024,
            ByteScale::Megabytes => 1048576,
            ByteScale::Gigabytes => 1073741824,
        }
    }

    /// The digits shown after the decimal point: two for gigabytes, one
    /// for megabytes and kilobytes, none for bytes.
    pub fn decimals(self) -> (d: usize)
        ensures
            d == (match self {
                ByteScale::Gigabytes => 2usize,
                ByteScale::Megabytes => 1usize,
                ByteScale::Kilobytes => 1usize,
                ByteScale::Bytes => 0usize,
            }),
    {
        match self {
            ByteScale::Gigabytes => 2,
            ByteScale::Megabytes => 1,
            ByteScale::Kilobytes => 1,
            ByteScale::Bytes => 0,
        }
    }

    /// The unit's symbol.
    pub fn unit(self) -> (u: &'static str)
        ensures
            u@ == (match self {
                ByteScale::Gigabytes => "GB"@,
                ByteScale::Megabytes => "MB"@,
                ByteScale::Kilobytes => "KB"@,
                ByteScale::Bytes => "B"@,
            }),
    {
        match self {
            ByteScale::Gigabytes => "GB",
            ByteScale::Megabytes => "MB",
            ByteScale::Kilobytes => "KB",
            ByteScale::Bytes => "B",
        }
    }
}

/// How a byte count under a kilobyte is shown: the count, then "B".
pub fn bytes_label(bytes: u64) -> (s: String)
    ensures
        s@ == decimal(bytes as nat) + " B"@,
{
    concat2(decimal_string(bytes).as_str(), " B")
}

/// A size is shown as at least one of its unit, and below a thousand and
/// twenty-four of it unless the unit is the largest.
pub proof fn lemma_scale_range(bytes: u64)
    requires
        bytes > 0,
    ensures
        scale_divisor(scale_of(bytes)) <= bytes,
        scale_of(bytes) != ByteScale::Gigabytes ==> bytes < 1024 * scale_divisor(scale_of(bytes)),
{
}


/// In a stable sort of a listing, every folder comes before every entry that
/// is not a folder.
pub proof fn lemma_folders_first(r: Seq<RepoEntry>, s: Seq<RepoEntry>, i: int, j: int)
    requires
        is_stable_sort_of(r, s),
        0 <= i < j < r.len(),
        r[j].is_dir,
    ensures
        r[i].is_dir,
{
    let perm = choose|perm: Seq<int>| is_stable_sorting(r, s, perm);
    assert(!entry_lt(r[j], r[i]));
}

/// Among folders, and among the other entries, a stable sort orders by
/// lowercase name.
pub proof fn lemma_sorted_by_name(r: Seq<RepoEntry>, s: Seq<RepoEntry>, i: int, j: int)
    requires
        is_stable_sort_of(r, s),
        0 <= i < j < r.len(),
        r[i].is_dir == r[j].is_dir,
    ensures
        !bytes_lt(name_key(r[j]), name_key(r[i])),
{
    let perm = choose|perm: Seq<int>| is_stable_sorting(r, s, perm);
    assert(!entry_lt(r[j], r[i]));
}

/// Uppercasing an ASCII extension does not change whether it is binary.
pub proof fn lemma_binary_extension_ignores_case(e: Seq<char>)
    requires
        is_ascii_chars(e),
    ensures
        is_ascii_chars(ascii_uppercase(e)),
        is_binary_name(ascii_lowercase(ascii_uppercase(e))) == is_binary_name(ascii_lowercase(e)),
{
    assert(ascii_lowercase(ascii_uppercase(e)) =~= ascii_lowercase(e));
}

} // verus!
