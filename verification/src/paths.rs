//! Paths are carried as UTF-8 strings with `/` as the separator.  This module
//! gives them the meaning that `std::path` documents for Unix: the final
//! component (`file_name`), its stem and extension, and joining.
use vstd::prelude::*;
use crate::text::chars_of;

verus! {

/// The trailing run of characters after the last `/`.
pub open spec fn last_segment(s: Seq<char>) -> Seq<char>
    decreases s.len(),
{
    if s.len() == 0 || s.last() == '/' {
        Seq::empty()
    } else {
        last_segment(s.drop_last()).push(s.last())
    }
}

/// The final component of a path, if it is a normal one: trailing separators
/// and `.` components are skipped, and a final `..` (or no component) gives `None`.
pub open spec fn file_name(s: Seq<char>) -> Option<Seq<char>>
    decreases s.len(),
{
    if s.len() == 0 {
        None
    } else if s.last() == '/' {
        file_name(s.drop_last())
    } else {
        let seg = last_segment(s);
        if seg == seq!['.'] {
            file_name(s.drop_last())
        } else if seg == seq!['.', '.'] {
            None
        } else {
            Some(seg)
        }
    }
}

/// The position of the last `.` in `s`.
pub open spec fn last_dot(s: Seq<char>) -> Option<int>
    decreases s.len(),
{
    if s.len() == 0 {
        None
    } else if s.last() == '.' {
        Some(s.len() - 1)
    } else {
        last_dot(s.drop_last())
    }
}

/// The part of a file name before its final `.`; the whole name when the
/// name has no `.` or its only `.` is the first character.
pub open spec fn name_stem(name: Seq<char>) -> Seq<char> {
    match last_dot(name) {
        Some(p) => if p > 0 { name.subrange(0, p) } else { name },
        None => name,
    }
}

/// The part of a file name after its final `.`, under the same rule.
pub open spec fn name_extension(name: Seq<char>) -> Option<Seq<char>> {
    match last_dot(name) {
        Some(p) => if p > 0 { Some(name.subrange(p + 1, name.len() as int)) } else { None },
        None => None,
    }
}

/// `Path::file_stem`.
pub open spec fn file_stem(path: Seq<char>) -> Option<Seq<char>> {
    match file_name(path) {
        Some(name) => Some(name_stem(name)),
        None => None,
    }
}

/// `Path::extension`.
pub open spec fn extension(path: Seq<char>) -> Option<Seq<char>> {
    match file_name(path) {
        Some(name) => name_extension(name),
        None => None,
    }
}

/// `Path::join`: an absolute `part` replaces `base`; otherwise a separator
/// is inserted when `base` is non-empty and does not already end in one.
pub open spec fn join(base: Seq<char>, part: Seq<char>) -> Seq<char> {
    if part.len() > 0 && part[0] == '/' {
        part
    } else if base.len() == 0 || base.last() == '/' {
        base + part
    } else {
        base + seq!['/'] + part
    }
}

proof fn lemma_last_segment(s: Seq<char>, start: int, end: int)
    requires
        0 <= start <= end <= s.len(),
        start == 0 || s[start - 1] == '/',
        forall|i: int| start <= i < end ==> s[i] != '/',
    ensures
        last_segment(s.subrange(0, end)) == s.subrange(start, end),
    decreases end - start,
{
    if end == start {
        if start > 0 {
            assert(s.subrange(0, end).last() == s[start - 1]);
        }
        assert(s.subrange(start, end) =~= Seq::<char>::empty());
    } else {
        lemma_last_segment(s, start, end - 1);
        assert(s.subrange(0, end).drop_last() =~= s.subrange(0, end - 1));
        assert(s.subrange(start, end) =~= s.subrange(start, end - 1).push(s[end - 1]));
    }
}

/// The final normal component of `path`, as `Path::file_name` gives it.
pub fn path_file_name(path: &str) -> (r: Option<String>)
    ensures
        match r {
            Some(name) => file_name(path@) == Some(name@),
            None => file_name(path@) is None,
        },
{
    let chars = chars_of(path);
    let mut end: usize = chars.len();
    assert(path@.subrange(0, end as int) =~= path@);
    loop
        invariant
            chars@ == path@,
            end <= chars@.len(),
            file_name(path@.subrange(0, end as int)) == file_name(path@),
        decreases end,
    {
        let ghost end0 = end;
        while end > 0 && chars[end - 1] == '/'
            invariant
                end <= end0,
                chars@ == path@,
                end <= chars@.len(),
                file_name(path@.subrange(0, end as int)) == file_name(path@),
            decreases end,
        {
            assert(path@.subrange(0, end as int).drop_last() =~= path@.subrange(0, end - 1));
            end = end - 1;
        }
        if end == 0 {
            return None;
        }
        let mut start: usize = end;
        while start > 0 && chars[start - 1] != '/'
            invariant
                chars@ == path@,
                start <= end <= chars@.len(),
                forall|i: int| start <= i < end ==> path@[i] != '/',
            decreases start,
        {
            start = start - 1;
        }
        proof {
            lemma_last_segment(path@, start as int, end as int);
        }
        let ghost prefix = path@.subrange(0, end as int);
        assert(prefix.last() == path@[end - 1]);
        if end - start == 1 && chars[start] == '.' {
            assert(last_segment(prefix) =~= seq!['.']);
            assert(prefix.drop_last() =~= path@.subrange(0, start as int));
            end = start;
        } else if end - start == 2 && chars[start] == '.' && chars[start + 1] == '.' {
            assert(last_segment(prefix) =~= seq!['.', '.']);
            return None;
        } else {
            let ghost seg = path@.subrange(start as int, end as int);
            assert(seg.len() == 1 ==> seg[0] == path@[start as int]);
            assert(seg.len() == 2 ==> seg[0] == path@[start as int] && seg[1] == path@[start + 1]);
            assert(seg != seq!['.']) by {
                if seg == seq!['.'] {
                    assert(seg.len() == 1);
                }
            }
            assert(seg != seq!['.', '.']) by {
                if seg == seq!['.', '.'] {
                    assert(seg.len() == 2);
                }
            }
            let name = path.substring_char(start, end);
            return Some(name.to_owned());
        }
    }
}

proof fn lemma_last_dot_none(s: Seq<char>)
    requires
        forall|i: int| 0 <= i < s.len() ==> s[i] != '.',
    ensures
        last_dot(s) is None,
    decreases s.len(),
{
    if s.len() > 0 {
        lemma_last_dot_none(s.drop_last());
    }
}

proof fn lemma_last_dot_at(s: Seq<char>, p: int)
    requires
        0 <= p < s.len(),
        s[p] == '.',
        forall|i: int| p < i < s.len() ==> s[i] != '.',
    ensures
        last_dot(s) == Some(p),
    decreases s.len(),
{
    if p < s.len() - 1 {
        lemma_last_dot_at(s.drop_last(), p);
    }
}

/// The position of the last `.` of `name`, by a scan from the end.
fn find_last_dot(chars: &Vec<char>) -> (r: Option<usize>)
    ensures
        match r {
            Some(p) => last_dot(chars@) == Some(p as int) && p < chars@.len(),
            None => last_dot(chars@) is None,
        },
{
    let mut i: usize = chars.len();
    while i > 0
        invariant
            i <= chars@.len(),
            forall|k: int| i <= k < chars@.len() ==> chars@[k] != '.',
        decreases i,
    {
        if chars[i - 1] == '.' {
            proof { lemma_last_dot_at(chars@, i - 1); }
            return Some(i - 1);
        }
        i = i - 1;
    }
    proof { lemma_last_dot_none(chars@); }
    None
}

/// `Path::file_stem`: the final component without its extension.
pub fn path_file_stem(path: &str) -> (r: Option<String>)
    ensures
        match r {
            Some(stem) => file_stem(path@) == Some(stem@),
            None => file_stem(path@) is None,
        },
{
    match path_file_name(path) {
        None => None,
        Some(name) => {
            let chars = chars_of(name.as_str());
            match find_last_dot(&chars) {
                Some(p) => {
                    if p > 0 {
                        Some(name.as_str().substring_char(0, p).to_owned())
                    } else {
                        Some(name)
                    }
                },
                None => Some(name),
            }
        },
    }
}

/// `Path::extension`: what follows the final `.` of the final component.
pub fn path_extension(path: &str) -> (r: Option<String>)
    ensures
        match r {
            Some(ext) => extension(path@) == Some(ext@),
            None => extension(path@) is None,
        },
{
    match path_file_name(path) {
        None => None,
        Some(name) => {
            let chars = chars_of(name.as_str());
            let n = chars.len();
            match find_last_dot(&chars) {
                Some(p) => {
                    if p > 0 {
                        Some(name.as_str().substring_char(p + 1, n).to_owned())
                    } else {
                        None
                    }
                },
                None => None,
            }
        },
    }
}

/// `Path::join`, for paths held as strings.
pub fn join_path(base: &str, part: &str) -> (r: String)
    ensures
        r@ == join(base@, part@),
{
    let part_len = part.unicode_len();
    if part_len > 0 && part.get_char(0) == '/' {
        return part.to_owned();
    }
    let base_len = base.unicode_len();
    let mut r = base.to_owned();
    if base_len > 0 && base.get_char(base_len - 1) != '/' {
        proof { reveal_strlit("/"); }
        r.append("/");
    }
    r.append(part);
    r
}

} // verus!
