//! Plain-string path handling: the final component of a path, its
//! extension, and the fixed, case-insensitive whitelist of image
//! extensions. A path here is a sequence of characters whose components are
//! separated by `/`; trailing separators and trailing `.` components do not
//! count, so `a/b/` and `a/b/.` both end in the component `b`.

use vstd::prelude::*;

verus! {

/// The code point of `c`, with ASCII capital letters folded to lower case.
pub open spec fn lower_code(c: char) -> u32 {
    if 'A' <= c && c <= 'Z' {
        (c as u32 + 32) as u32
    } else {
        c as u32
    }
}

/// The two sequences agree letter for letter, up to ASCII case.
pub open spec fn lower_eq(a: Seq<char>, b: Seq<char>) -> bool {
    a.len() == b.len() && forall|k: int| 0 <= k < a.len() ==> lower_code(a[k]) == lower_code(b[k])
}

/// The extension whitelist: exactly these, in any ASCII case, name image
/// files.
pub open spec fn is_image_ext_seq(e: Seq<char>) -> bool {
    ||| lower_eq(e, "bmp"@)
    ||| lower_eq(e, "ico"@)
    ||| lower_eq(e, "jpg"@)
    ||| lower_eq(e, "jpeg"@)
    ||| lower_eq(e, "gif"@)
    ||| lower_eq(e, "png"@)
    ||| lower_eq(e, "tiff"@)
    ||| lower_eq(e, "webp"@)
    ||| lower_eq(e, "avif"@)
    ||| lower_eq(e, "pnm"@)
    ||| lower_eq(e, "dds"@)
    ||| lower_eq(e, "tga"@)
}

/// The largest index at which `c` occurs in `s`, or -1 when it does not.
pub open spec fn last_at(s: Seq<char>, c: char) -> int
    decreases s.len(),
{
    if s.len() == 0 {
        -1
    } else if s[s.len() - 1] == c {
        s.len() - 1
    } else {
        last_at(s.drop_last(), c)
    }
}

/// What `last_at` returns: the index of an occurrence with none after it,
/// or -1 when `c` does not occur at all.
pub proof fn lemma_last_at(s: Seq<char>, c: char)
    ensures
        -1 <= last_at(s, c) < s.len(),
        last_at(s, c) >= 0 ==> s[last_at(s, c)] == c,
        forall|j: int| last_at(s, c) < j < s.len() ==> s[j] != c,
    decreases s.len(),
{
    if s.len() > 0 && s[s.len() - 1] != c {
        lemma_last_at(s.drop_last(), c);
        assert(forall|j: int| 0 <= j < s.len() - 1 ==> s[j] == s.drop_last()[j]);
    }
}

/// `s` with trailing separators and trailing `.` components removed; a
/// lone `.` leaves nothing.
pub open spec fn trimmed(s: Seq<char>) -> Seq<char>
    decreases s.len(),
{
    if s.len() > 0 && s[s.len() - 1] == '/' {
        trimmed(s.drop_last())
    } else if s.len() >= 2 && s[s.len() - 1] == '.' && s[s.len() - 2] == '/' {
        trimmed(s.drop_last())
    } else if s.len() == 1 && s[0] == '.' {
        Seq::empty()
    } else {
        s
    }
}

/// The final component of a path: what follows the last separator, after
/// trailing separators and `.` components are dropped.
pub open spec fn file_name_seq(s: Seq<char>) -> Seq<char> {
    let t = trimmed(s);
    t.subrange(last_at(t, '/') + 1, t.len() as int)
}

/// The file name of a path, or nothing when none can be made out of it:
/// when nothing is left after trimming, or the final component is `..`.
pub open spec fn file_name_of(s: Seq<char>) -> Option<Seq<char>> {
    let n = file_name_seq(s);
    if n.len() == 0 || n == ".."@ {
        None
    } else {
        Some(n)
    }
}

/// The extension of a path: what follows the last dot of its file name,
/// provided that dot is preceded by at least one character. A name without
/// a dot, and a name whose only dot leads it (a hidden file), have no
/// extension; neither has a path without a file name.
pub open spec fn ext_seq(s: Seq<char>) -> Option<Seq<char>> {
    match file_name_of(s) {
        Some(name) => {
            let d = last_at(name, '.');
            if d <= 0 {
                None
            } else {
                Some(name.subrange(d + 1, name.len() as int))
            }
        },
        None => None,
    }
}

/// The path names an image file: it has an extension on the whitelist.
pub open spec fn is_image_path_seq(s: Seq<char>) -> bool {
    ext_seq(s) matches Some(e) && is_image_ext_seq(e)
}

/// The code point of `c`, with ASCII capital letters folded to lower case.
pub fn lower_code_exec(c: char) -> (r: u32)
    ensures
        r == lower_code(c),
{
    if 'A' <= c && c <= 'Z' {
        c as u32 + 32
    } else {
        c as u32
    }
}

/// Whether `a` and `b` agree letter for letter, up to ASCII case.
pub fn eq_lower(a: &str, b: &str) -> (r: bool)
    ensures
        r == lower_eq(a@, b@),
{
    let la = a.unicode_len();
    let lb = b.unicode_len();
    if la != lb {
        return false;
    }
    let mut i: usize = 0;
    while i < la
        invariant
            la == a@.len(),
            lb == b@.len(),
            la == lb,
            0 <= i <= la,
            forall|k: int| 0 <= k < i ==> lower_code(a@[k]) == lower_code(b@[k]),
        decreases la - i,
    {
        if lower_code_exec(a.get_char(i)) != lower_code_exec(b.get_char(i)) {
            return false;
        }
        i = i + 1;
    }
    true
}

/// Whether the extension is on the image whitelist.
pub fn is_image_ext(e: &str) -> (r: bool)
    ensures
        r == is_image_ext_seq(e@),
{
    eq_lower(e, "bmp") || eq_lower(e, "ico") || eq_lower(e, "jpg") || eq_lower(e, "jpeg")
        || eq_lower(e, "gif") || eq_lower(e, "png") || eq_lower(e, "tiff") || eq_lower(e, "webp")
        || eq_lower(e, "avif") || eq_lower(e, "pnm") || eq_lower(e, "dds") || eq_lower(e, "tga")
}

/// The largest index at which `c` occurs in `s`, or nothing when it does
/// not occur.
pub fn rfind_char(s: &str, c: char) -> (r: Option<usize>)
    ensures
        match r {
            Some(i) => i == last_at(s@, c),
            None => last_at(s@, c) == -1,
        },
{
    proof {
        lemma_last_at(s@, c);
    }
    let len = s.unicode_len();
    let mut i: usize = len;
    while i > 0
        invariant
            len == s@.len(),
            0 <= i <= len,
            forall|j: int| i <= j < len ==> s@[j] != c,
        decreases i,
    {
        if s.get_char(i - 1) == c {
            proof {
                lemma_last_at(s@, c);
                let la = last_at(s@, c);
                if la > i - 1 {
                    assert(s@[la] != c);
                    assert(false);
                }
                if la < i - 1 {
                    assert(s@[i - 1] != c);
                    assert(false);
                }
            }
            return Some(i - 1);
        }
        i = i - 1;
    }
    None
}

/// How much of the path survives trimming: the prefix up to the returned
/// index is the path without its trailing separators and `.` components.
fn trim_end(p: &str) -> (end: usize)
    ensures
        end <= p@.len(),
        p@.take(end as int) == trimmed(p@),
{
    let len = p.unicode_len();
    let mut end: usize = len;
    proof {
        assert(p@.take(len as int) =~= p@);
    }
    while end > 0
        invariant
            len == p@.len(),
            0 <= end <= len,
            trimmed(p@) == trimmed(p@.take(end as int)),
        decreases end,
    {
        let c = p.get_char(end - 1);
        let drop_dot = c == '.' && (end == 1 || p.get_char(end - 2) == '/');
        if c == '/' || drop_dot {
            proof {
                let t = p@.take(end as int);
                assert(t.drop_last() =~= p@.take(end as int - 1));
                if end == 1 && c == '.' {
                    assert(trimmed(t) =~= Seq::empty());
                    assert(trimmed(p@.take(0)) =~= Seq::empty());
                } else {
                    assert(trimmed(t) == trimmed(t.drop_last()));
                }
            }
            end = end - 1;
        } else {
            proof {
                let t = p@.take(end as int);
                assert(t.len() > 0 && t[t.len() - 1] == c);
                assert(trimmed(t) == t);
            }
            return end;
        }
    }
    proof {
        assert(trimmed(p@.take(0)) =~= p@.take(0));
    }
    end
}

/// The file name of the path, or nothing when no file name can be made out
/// of it.
pub fn file_name(p: &str) -> (r: Option<String>)
    ensures
        match r {
            Some(n) => file_name_of(p@) == Some(n@),
            None => file_name_of(p@) is None,
        },
{
    let end = trim_end(p);
    let t = p.substring_char(0, end);
    proof {
        assert(t@ =~= trimmed(p@));
        lemma_last_at(t@, '/');
        reveal_strlit("..");
    }
    let tlen = t.unicode_len();
    let start = match rfind_char(t, '/') {
        Some(i) => i + 1,
        None => 0,
    };
    let name = t.substring_char(start, tlen);
    proof {
        assert(name@ =~= file_name_seq(p@));
    }
    let name_len = name.unicode_len();
    if name_len == 0 {
        return None;
    }
    if name_len == 2 && name.get_char(0) == '.' && name.get_char(1) == '.' {
        proof {
            assert(name@ =~= ".."@);
        }
        return None;
    }
    proof {
        if name@ == ".."@ {
            assert(name@.len() == 2);
        }
    }
    Some(String::from_str(name))
}

/// Whether the path names an image file.
pub fn is_image_path(p: &str) -> (r: bool)
    ensures
        r == is_image_path_seq(p@),
{
    let name = match file_name(p) {
        Some(n) => n,
        None => {
            return false;
        },
    };
    let ns = name.as_str();
    proof {
        lemma_last_at(ns@, '.');
    }
    let name_len = ns.unicode_len();
    match rfind_char(ns, '.') {
        Some(d) if d > 0 => {
            let e = ns.substring_char(d + 1, name_len);
            proof {
                assert(ext_seq(p@) matches Some(x) && e@ =~= x);
            }
            is_image_ext(e)
        },
        _ => false,
    }
}

} // verus!
