//! File names as sequences of characters: the last component of a path, its
//! extension and its stem, following the rules of `std::path` on Unix.
use vstd::prelude::*;

verus! {

/// Index of the last occurrence of `c` in `s`, or -1 when there is none.
pub open spec fn last_index_of(s: Seq<char>, c: char) -> int
    decreases s.len(),
{
    if s.len() == 0 {
        -1
    } else if s.last() == c {
        s.len() - 1
    } else {
        last_index_of(s.drop_last(), c)
    }
}

pub proof fn lemma_last_index_of(s: Seq<char>, c: char)
    ensures
        -1 <= last_index_of(s, c) < s.len(),
        last_index_of(s, c) >= 0 ==> s[last_index_of(s, c)] == c,
        forall|j: int| last_index_of(s, c) < j < s.len() ==> s[j] != c,
    decreases s.len(),
{
    if s.len() > 0 && s.last() != c {
        lemma_last_index_of(s.drop_last(), c);
        assert forall|j: int| last_index_of(s, c) < j < s.len() implies s[j] != c by {
            if j < s.len() - 1 {
                assert(s.drop_last()[j] == s[j]);
            }
        }
    }
}

/// The extension of a file name: what follows its last dot, provided that
/// something precedes that dot.
pub open spec fn extension_of(name: Seq<char>) -> Option<Seq<char>> {
    let i = last_index_of(name, '.');
    if i > 0 {
        Some(name.subrange(i + 1, name.len() as int))
    } else {
        None
    }
}

/// The stem of a file name: the name without its extension and the dot
/// before it.
pub open spec fn stem_of(name: Seq<char>) -> Seq<char> {
    let i = last_index_of(name, '.');
    if i > 0 {
        name.subrange(0, i)
    } else {
        name
    }
}

/// The name with its extension replaced by `ext`; an empty `ext` removes it.
pub open spec fn with_extension(name: Seq<char>, ext: Seq<char>) -> Seq<char> {
    if ext.len() == 0 {
        stem_of(name)
    } else {
        stem_of(name) + seq!['.'] + ext
    }
}

/// Finds the extension of `name`: the index of its dot, or `None`.
pub fn extension_dot(name: &str) -> (r: Option<usize>)
    ensures
        r is Some <==> extension_of(name@) is Some,
        r matches Some(i) ==> i as int == last_index_of(name@, '.'),
{
    let n = name.unicode_len();
    let mut i: usize = n;
    proof {
        assert(name@.subrange(0, n as int) =~= name@);
    }
    while i > 0
        invariant
            i <= n == name@.len(),
            last_index_of(name@, '.') == last_index_of(name@.subrange(0, i as int), '.'),
        decreases i,
    {
        if name.get_char(i - 1) == '.' {
            if i - 1 > 0 {
                return Some(i - 1);
            } else {
                return None;
            }
        }
        proof {
            assert(name@.subrange(0, i as int).drop_last() =~= name@.subrange(0, i - 1));
        }
        i = i - 1;
    }
    None
}


/// A path component that names nothing: empty (two slashes in a row, or a
/// trailing slash) or a single dot.
pub open spec fn is_skipped(seg: Seq<char>) -> bool {
    seg.len() == 0 || seg == seq!['.']
}

/// The parent-directory component `..`.
pub open spec fn is_parent(seg: Seq<char>) -> bool {
    seg == seq!['.', '.']
}

/// The file name of `path` with the component ending at `end` examined from
/// its character `i` backwards: skipped components are passed over, a
/// trailing `..` (or nothing at all) gives no name.
pub open spec fn last_name_from(path: Seq<char>, i: int, end: int) -> Option<Seq<char>>
    decreases i,
{
    if i <= 0 {
        let seg = path.subrange(0, end);
        if is_skipped(seg) || is_parent(seg) {
            None
        } else {
            Some(seg)
        }
    } else if path[i - 1] == '/' {
        let seg = path.subrange(i, end);
        if is_skipped(seg) {
            last_name_from(path, i - 1, i - 1)
        } else if is_parent(seg) {
            None
        } else {
            Some(seg)
        }
    } else {
        last_name_from(path, i - 1, end)
    }
}

/// The last component of a `/`-separated path, when that is a proper name.
pub open spec fn file_name_of(path: Seq<char>) -> Option<Seq<char>> {
    last_name_from(path, path.len() as int, path.len() as int)
}

/// Tells whether the component `s[from..to]` is skipped, and whether it is `..`.
fn component_kind(s: &str, from: usize, to: usize) -> (r: (bool, bool))
    requires
        from <= to <= s@.len(),
    ensures
        r.0 == is_skipped(s@.subrange(from as int, to as int)),
        r.1 == is_parent(s@.subrange(from as int, to as int)),
{
    let ghost seg = s@.subrange(from as int, to as int);
    proof {
        let one = seq!['.'];
        let two = seq!['.', '.'];
        assert(one.len() == 1 && one[0] == '.');
        assert(two.len() == 2 && two[0] == '.' && two[1] == '.');
    }
    let len = to - from;
    if len == 0 {
        (true, false)
    } else if len == 1 {
        let c = s.get_char(from);
        proof {
            if c == '.' {
                assert(seg =~= seq!['.']);
            }
            assert(seg.len() != 2);
        }
        (c == '.', false)
    } else if len == 2 {
        let c0 = s.get_char(from);
        let c1 = s.get_char(from + 1);
        proof {
            if c0 == '.' && c1 == '.' {
                assert(seg =~= seq!['.', '.']);
            }
            assert(seg[0] == c0 && seg[1] == c1);
            assert(seg.len() != 1);
        }
        (false, c0 == '.' && c1 == '.')
    } else {
        proof {
            assert(seg.len() != 1 && seg.len() != 2);
        }
        (false, false)
    }
}

/// Finds the last component of `path` that names a file, as a range of
/// character positions.
pub fn file_name_range(path: &str) -> (r: Option<(usize, usize)>)
    ensures
        match r {
            Some((a, b)) => a <= b <= path@.len() && file_name_of(path@) == Some(
                path@.subrange(a as int, b as int),
            ),
            None => file_name_of(path@) is None,
        },
{
    let n = path.unicode_len();
    let mut i: usize = n;
    let mut end: usize = n;
    while i > 0
        invariant
            i <= end <= n == path@.len(),
            file_name_of(path@) == last_name_from(path@, i as int, end as int),
        decreases i,
    {
        if path.get_char(i - 1) == '/' {
            let (skipped, parent) = component_kind(path, i, end);
            if skipped {
                end = i - 1;
            } else if parent {
                return None;
            } else {
                return Some((i, end));
            }
        }
        i = i - 1;
    }
    let (skipped, parent) = component_kind(path, 0, end);
    if skipped || parent {
        None
    } else {
        Some((0, end))
    }
}


/// The name used when a requested name yields no file name.
pub open spec fn fallback_name() -> Seq<char> {
    seq!['f', 'i', 'l', 'e']
}

/// The name that stands for standard input.
pub open spec fn stdin_name() -> Seq<char> {
    seq!['s', 't', 'd', 'i', 'n']
}

/// The base name kept for a requested name: its file name, `file` when it has
/// none, and `stdin` in place of `-`.
pub open spec fn base_name(requested: Seq<char>) -> Seq<char> {
    match file_name_of(requested) {
        None => fallback_name(),
        Some(n) => if n == seq!['-'] {
            stdin_name()
        } else {
            n
        },
    }
}

/// A name that a generated name may take: a single non-empty component that
/// is neither `.` nor `..`.
pub open spec fn is_plain_name(name: Seq<char>) -> bool {
    &&& name.len() > 0
    &&& forall|i: int| 0 <= i < name.len() ==> name[i] != '/'
    &&& !is_skipped(name)
    &&& !is_parent(name)
}

/// Computes the base name kept for `requested`.
pub fn sanitize_base_name(requested: &str) -> (r: String)
    ensures
        r@ == base_name(requested@),
{
    match file_name_range(requested) {
        None => {
            let r = String::from_str("file");
            proof {
                reveal_strlit("file");
                assert(r@ =~= fallback_name());
            }
            r
        },
        Some((a, b)) => {
            let is_dash = b - a == 1 && requested.get_char(a) == '-';
            proof {
                let n = requested@.subrange(a as int, b as int);
                let dash = seq!['-'];
                assert(dash.len() == 1 && dash[0] == '-');
                if is_dash {
                    assert(n =~= dash);
                } else if n.len() == 1 {
                    assert(n[0] == requested@[a as int]);
                }
            }
            if is_dash {
                let r = String::from_str("stdin");
                proof {
                    reveal_strlit("stdin");
                    assert(r@ =~= stdin_name());
                }
                r
            } else {
                String::from_str(requested.substring_char(a, b))
            }
        },
    }
}

/// Tells whether `name` is a plain name.
pub fn plain_name(name: &str) -> (r: bool)
    ensures
        r == is_plain_name(name@),
{
    let n = name.unicode_len();
    if n == 0 {
        return false;
    }
    let (skipped, parent) = component_kind(name, 0, n);
    proof {
        assert(name@.subrange(0, n as int) =~= name@);
    }
    if skipped || parent {
        return false;
    }
    let mut i: usize = 0;
    while i < n
        invariant
            i <= n == name@.len(),
            forall|j: int| 0 <= j < i ==> name@[j] != '/',
        decreases n - i,
    {
        if name.get_char(i) == '/' {
            return false;
        }
        i = i + 1;
    }
    true
}

/// Replaces the extension of `name` by `ext`, or removes it when `ext` is empty.
pub fn set_extension(name: &str, ext: &str) -> (r: String)
    ensures
        r@ == with_extension(name@, ext@),
{
    let mut r = match extension_dot(name) {
        Some(i) => {
            proof {
                lemma_last_index_of(name@, '.');
            }
            String::from_str(name.substring_char(0, i))
        },
        None => String::from_str(name),
    };
    assert(r@ == stem_of(name@));
    if ext.unicode_len() > 0 {
        r.append(".");
        r.append(ext);
        proof {
            reveal_strlit(".");
            assert(r@ =~= stem_of(name@) + seq!['.'] + ext@);
        }
    }
    r
}


/// The generated name, when there is one and it is plain.
pub open spec fn usable_name(generated: Option<Seq<char>>) -> Option<Seq<char>> {
    match generated {
        Some(g) => if is_plain_name(g) {
            Some(g)
        } else {
            None
        },
        None => None,
    }
}

/// The file name under which a file paste is stored.
///
/// The base name of `requested` keeps its extension, if it has one, and only
/// its stem gives way to a generated name. Without an extension, the name
/// (generated or not) gets the extension sniffed from the content, or
/// `default_extension` where sniffing found none.
pub open spec fn resolved_file_name(
    requested: Seq<char>,
    default_extension: Seq<char>,
    generated: Option<Seq<char>>,
    sniffed: Option<Seq<char>>,
) -> Seq<char> {
    let base = base_name(requested);
    match extension_of(base) {
        Some(ext) => match usable_name(generated) {
            Some(g) => with_extension(g, ext),
            None => base,
        },
        None => {
            let name = match usable_name(generated) {
                Some(g) => g,
                None => base,
            };
            let ext = match sniffed {
                Some(e) => e,
                None => default_extension,
            };
            with_extension(name, ext)
        },
    }
}

/// Picks the generated name when it is plain.
pub fn usable_generated_name(generated: &Option<String>) -> (r: Option<&str>)
    ensures
        r.deep_view() == usable_name(generated.deep_view()),
{
    match generated {
        Some(g) => {
            if plain_name(g.as_str()) {
                Some(g.as_str())
            } else {
                None
            }
        },
        None => None,
    }
}

/// Computes the file name under which a file paste is stored, from the
/// requested name, the default extension, the generated name (if any) and the
/// extension sniffed from the content (if any).
pub fn resolve_file_name(
    requested: &str,
    default_extension: &str,
    generated: &Option<String>,
    sniffed: &Option<String>,
) -> (r: String)
    ensures
        r@ == resolved_file_name(
            requested@,
            default_extension@,
            generated.deep_view(),
            sniffed.deep_view(),
        ),
        r@.len() > 0,
{
    proof {
        lemma_resolved_name_non_empty(
            requested@,
            default_extension@,
            generated.deep_view(),
            sniffed.deep_view(),
        );
    }
    let base = sanitize_base_name(requested);
    let gen = usable_generated_name(generated);
    match extension_dot(base.as_str()) {
        Some(i) => {
            proof {
                lemma_last_index_of(base@, '.');
            }
            let n = base.as_str().unicode_len();
            let ext = base.as_str().substring_char(i + 1, n);
            match gen {
                Some(g) => set_extension(g, ext),
                None => base,
            }
        },
        None => {
            let name: &str = match gen {
                Some(g) => g,
                None => base.as_str(),
            };
            let ext: &str = match sniffed {
                Some(e) => e.as_str(),
                None => default_extension,
            };
            set_extension(name, ext)
        },
    }
}


proof fn lemma_last_index_of_free_suffix(a: Seq<char>, b: Seq<char>, c: char)
    requires
        forall|j: int| 0 <= j < b.len() ==> b[j] != c,
    ensures
        last_index_of(a + b, c) == last_index_of(a, c),
    decreases b.len(),
{
    if b.len() > 0 {
        assert((a + b).drop_last() =~= a + b.drop_last());
        assert((a + b).last() == b.last());
        lemma_last_index_of_free_suffix(a, b.drop_last(), c);
    } else {
        assert(a + b =~= a);
    }
}

proof fn lemma_last_name_from_non_empty(path: Seq<char>, i: int, end: int)
    requires
        0 <= i <= end <= path.len(),
    ensures
        last_name_from(path, i, end) matches Some(n) ==> n.len() > 0,
    decreases i,
{
    if i > 0 {
        if path[i - 1] == '/' {
            lemma_last_name_from_non_empty(path, i - 1, i - 1);
        } else {
            lemma_last_name_from_non_empty(path, i - 1, end);
        }
    }
}

proof fn lemma_base_name_non_empty(requested: Seq<char>)
    ensures
        base_name(requested).len() > 0,
{
    lemma_last_name_from_non_empty(requested, requested.len() as int, requested.len() as int);
}

proof fn lemma_stem_non_empty(name: Seq<char>)
    requires
        name.len() > 0,
    ensures
        stem_of(name).len() > 0,
{
    lemma_last_index_of(name, '.');
}

/// A base name is never `-`, which stands for standard input.
pub proof fn lemma_base_name_not_dash(requested: Seq<char>)
    ensures
        base_name(requested) != seq!['-'],
{
    assert(seq!['-'].len() == 1);
    assert(stdin_name().len() == 5);
    assert(fallback_name().len() == 4);
}

/// A resolved file name is never empty.
pub proof fn lemma_resolved_name_non_empty(
    requested: Seq<char>,
    default_extension: Seq<char>,
    generated: Option<Seq<char>>,
    sniffed: Option<Seq<char>>,
)
    ensures
        resolved_file_name(requested, default_extension, generated, sniffed).len() > 0,
{
    lemma_base_name_non_empty(requested);
    let base = base_name(requested);
    let name = match usable_name(generated) {
        Some(g) => g,
        None => base,
    };
    lemma_stem_non_empty(name);
    assert(stem_of(name).len() > 0);
}

/// Without a generated name, a requested name whose base name has an
/// extension is stored under exactly that base name, so the extension is
/// kept.
pub proof fn lemma_extension_kept(
    requested: Seq<char>,
    default_extension: Seq<char>,
    sniffed: Option<Seq<char>>,
)
    requires
        extension_of(base_name(requested)) is Some,
    ensures
        resolved_file_name(requested, default_extension, None, sniffed) == base_name(requested),
        extension_of(resolved_file_name(requested, default_extension, None, sniffed))
            == extension_of(base_name(requested)),
{
}

/// The requested name `-` has the base name `stdin`; without a generated
/// name the stored name is `stdin`, or `stdin` followed by a dot and the
/// chosen extension.
pub proof fn lemma_dash_is_stdin(
    default_extension: Seq<char>,
    sniffed: Option<Seq<char>>,
)
    ensures
        base_name(seq!['-']) == stdin_name(),
        ({
            let r = resolved_file_name(seq!['-'], default_extension, None, sniffed);
            &&& r.len() >= 5
            &&& r.subrange(0, 5) == stdin_name()
            &&& r.len() == 5 || r[5] == '.'
        }),
{
    let dash = seq!['-'];
    assert(dash.len() == 1 && dash[0] == '-');
    assert(dash.subrange(0, 1) =~= dash);
    assert(last_name_from(dash, 0, 1) == Some(dash));
    assert(file_name_of(dash) == Some(dash));
    let s = stdin_name();
    lemma_last_index_of(s, '.');
    assert(last_index_of(s, '.') == -1);
    let r = resolved_file_name(dash, default_extension, None, sniffed);
    assert(r.subrange(0, 5) =~= s);
}

/// A requested name whose base name has no extension, with content whose
/// type is not recognised, is stored with the default extension, whether or
/// not a name was generated, provided that extension is a non-empty name
/// without a dot.
pub proof fn lemma_default_extension(
    requested: Seq<char>,
    default_extension: Seq<char>,
    generated: Option<Seq<char>>,
)
    requires
        extension_of(base_name(requested)) is None,
        default_extension.len() > 0,
        forall|j: int| 0 <= j < default_extension.len() ==> default_extension[j] != '.',
    ensures
        extension_of(resolved_file_name(requested, default_extension, generated, None)) == Some(
            default_extension,
        ),
{
    lemma_base_name_non_empty(requested);
    let name = match usable_name(generated) {
        Some(g) => g,
        None => base_name(requested),
    };
    lemma_stem_non_empty(name);
    let stem = stem_of(name);
    let r = stem + seq!['.'] + default_extension;
    assert(r == resolved_file_name(requested, default_extension, generated, None));
    let with_dot = stem + seq!['.'];
    assert(with_dot.drop_last() =~= stem);
    assert(last_index_of(with_dot, '.') == stem.len());
    lemma_last_index_of_free_suffix(with_dot, default_extension, '.');
    assert(r.subrange(stem.len() as int + 1, r.len() as int) =~= default_extension);
}

} // verus!
