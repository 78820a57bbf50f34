//! A model of the path operations the library performs on `/`-separated
//! paths held as strings: joining a relative name onto a folder and
//! replacing a file name's extension.
use vstd::prelude::*;
use crate::text::append_chars;

verus! {

/// `folder` joined with a relative `name`: a separator is inserted unless
/// `folder` is empty or already ends with one.
pub open spec fn join_path(folder: Seq<char>, name: Seq<char>) -> Seq<char> {
    if folder.len() == 0 {
        name
    } else if folder.last() == '/' {
        folder + name
    } else {
        folder + seq!['/'] + name
    }
}

/// Index of the last `.` in `s`, or -1 when there is none.
pub open spec fn last_dot(s: Seq<char>) -> int
    decreases s.len(),
{
    if s.len() == 0 {
        -1
    } else if s.last() == '.' {
        s.len() - 1
    } else {
        last_dot(s.drop_last())
    }
}

/// The stem of a file name: everything before the last `.`, unless the name
/// has no `.` or its only `.` is the first character.
pub open spec fn file_stem(name: Seq<char>) -> Seq<char> {
    if last_dot(name) <= 0 {
        name
    } else {
        name.take(last_dot(name))
    }
}

/// A file name with its extension replaced by `ext` (dropped when `ext` is empty).
pub open spec fn with_extension(name: Seq<char>, ext: Seq<char>) -> Seq<char> {
    if ext.len() == 0 {
        file_stem(name)
    } else {
        file_stem(name) + seq!['.'] + ext
    }
}

/// `s` with trailing separators and trailing `.` components removed (a `.`
/// at the very start stays): what is left ends in the component that a
/// path's file name is taken from.
pub open spec fn strip_tail(s: Seq<char>) -> Seq<char>
    decreases s.len(),
{
    if s.len() > 0 && s.last() == '/' {
        strip_tail(s.drop_last())
    } else if s.len() >= 2 && s.last() == '.' && s[s.len() - 2] == '/' {
        strip_tail(s.drop_last())
    } else {
        s
    }
}

/// Index of the last `/` in `s`, or -1 when there is none.
pub open spec fn last_slash(s: Seq<char>) -> int
    decreases s.len(),
{
    if s.len() == 0 {
        -1
    } else if s.last() == '/' {
        s.len() - 1
    } else {
        last_slash(s.drop_last())
    }
}

/// The path of the name `.` with extension `ext` inside `folder`. The joined
/// path `folder/.` has no file name of its own: its file name is the last
/// component of `folder`, which takes the extension in place of its own.
/// When that component is missing, `.` or `..`, the joined path stays as it is.
pub open spec fn dot_file_path(folder: Seq<char>, ext: Seq<char>) -> Seq<char> {
    let raw = join_path(folder, seq!['.']);
    let t = strip_tail(raw);
    let start = last_slash(t) + 1;
    let comp = t.subrange(start, t.len() as int);
    if comp.len() == 0 || comp == seq!['.'] || comp == seq!['.', '.'] {
        raw
    } else {
        t.take(start) + with_extension(comp, ext)
    }
}

/// The path of file `name` with extension `ext` inside `folder`. The name
/// `..` names no file, so it is joined unchanged; for the name `.` see
/// `dot_file_path`.
pub open spec fn file_path(folder: Seq<char>, name: Seq<char>, ext: Seq<char>) -> Seq<char> {
    if name == seq!['.', '.'] {
        join_path(folder, name)
    } else if name == seq!['.'] {
        dot_file_path(folder, ext)
    } else {
        join_path(folder, with_extension(name, ext))
    }
}

pub proof fn lemma_last_dot_range(s: Seq<char>)
    ensures
        -1 <= last_dot(s) < s.len(),
        last_dot(s) >= 0 ==> s[last_dot(s)] == '.',
        forall|k: int| last_dot(s) < k < s.len() ==> s[k] != '.',
    decreases s.len(),
{
    if s.len() > 0 && s.last() != '.' {
        lemma_last_dot_range(s.drop_last());
        assert forall|k: int| last_dot(s) < k < s.len() implies s[k] != '.' by {
            if k < s.len() - 1 {
                assert(s.drop_last()[k] == s[k]);
            }
        }
    }
}

/// Position of the last `.` in `name`, if there is one.
pub fn find_last_dot(name: &Vec<char>) -> (r: Option<usize>)
    ensures
        match r {
            Some(i) => i == last_dot(name@),
            None => last_dot(name@) == -1,
        },
{
    let mut i: usize = name.len();
    assert(name@.take(i as int) =~= name@);
    while i > 0
        invariant
            i <= name.len(),
            last_dot(name@) == last_dot(name@.take(i as int)),
        decreases i,
    {
        let ghost prefix = name@.take(i as int);
        if name[i - 1] == '.' {
            return Some(i - 1);
        }
        assert(prefix.drop_last() =~= name@.take(i - 1));
        i = i - 1;
    }
    assert(name@.take(0) =~= Seq::<char>::empty());
    None
}

/// Appends `folder` joined with `name` to nothing: returns the joined path.
pub fn join_chars(folder: &Vec<char>, name: &Vec<char>) -> (r: Vec<char>)
    ensures
        r@ == join_path(folder@, name@),
{
    let mut out: Vec<char> = Vec::new();
    append_chars(&mut out, folder);
    if folder.len() > 0 && folder[folder.len() - 1] != '/' {
        out.push('/');
    }
    append_chars(&mut out, name);
    proof {
        if folder.len() > 0 && folder@.last() != '/' {
            assert(out@ =~= folder@ + seq!['/'] + name@);
        } else {
            assert(out@ =~= folder@ + name@);
        }
    }
    out
}

/// The file name `name` with its extension replaced by `ext`.
pub fn replace_extension(name: &Vec<char>, ext: &Vec<char>) -> (r: Vec<char>)
    ensures
        r@ == with_extension(name@, ext@),
{
    let dot = find_last_dot(name);
    let mut out: Vec<char> = Vec::new();
    let stop: usize = match dot {
        Some(i) => i,
        None => 0,
    };
    if stop == 0 {
        append_chars(&mut out, name);
    } else {
        proof {
            lemma_last_dot_range(name@);
        }
        let mut i: usize = 0;
        while i < stop
            invariant
                i <= stop,
                stop == last_dot(name@),
                0 < stop < name.len(),
                out@ == name@.take(i as int),
            decreases stop - i,
        {
            out.push(name[i]);
            i = i + 1;
            assert(out@ =~= name@.take(i as int));
        }
        proof {
            lemma_last_dot_range(name@);
        }
    }
    assert(out@ =~= file_stem(name@));
    if ext.len() > 0 {
        out.push('.');
        append_chars(&mut out, ext);
        assert(out@ =~= file_stem(name@) + seq!['.'] + ext@);
    }
    out
}

/// Whether `name` is exactly `..`.
pub fn is_parent_marker(name: &Vec<char>) -> (b: bool)
    ensures
        b == (name@ == seq!['.', '.']),
{
    let r = name.len() == 2 && name[0] == '.' && name[1] == '.';
    proof {
        if name.len() == 2 && name@[0] == '.' && name@[1] == '.' {
            assert(name@ =~= seq!['.', '.']);
        }
    }
    r
}

/// Length of the prefix of `s` that `strip_tail` leaves.
fn strip_tail_len(s: &Vec<char>) -> (k: usize)
    ensures
        k <= s.len(),
        strip_tail(s@) == s@.take(k as int),
{
    let mut k: usize = s.len();
    assert(s@.take(k as int) =~= s@);
    while k > 0 && (s[k - 1] == '/' || (k >= 2 && s[k - 1] == '.' && s[k - 2] == '/'))
        invariant
            k <= s.len(),
            strip_tail(s@) == strip_tail(s@.take(k as int)),
        decreases k,
    {
        assert(s@.take(k as int).drop_last() =~= s@.take(k - 1));
        k = k - 1;
    }
    let ghost t = s@.take(k as int);
    assert(t.len() > 0 ==> t.last() == s@[k - 1]);
    assert(t.len() >= 2 ==> t[t.len() - 2] == s@[k - 2]);
    k
}

/// One past the last `/` among the first `len` characters of `s` (0 when
/// there is none).
fn after_last_slash(s: &Vec<char>, len: usize) -> (r: usize)
    requires
        len <= s.len(),
    ensures
        r == last_slash(s@.take(len as int)) + 1,
{
    let mut i: usize = len;
    while i > 0
        invariant
            i <= len <= s.len(),
            last_slash(s@.take(len as int)) == last_slash(s@.take(i as int)),
        decreases i,
    {
        let ghost prefix = s@.take(i as int);
        if s[i - 1] == '/' {
            return i;
        }
        assert(prefix.drop_last() =~= s@.take(i - 1));
        i = i - 1;
    }
    assert(s@.take(0) =~= Seq::<char>::empty());
    0
}

/// The path of the name `.` with extension `ext` inside `folder`.
pub fn build_dot_path(folder: &Vec<char>, ext: &Vec<char>) -> (r: Vec<char>)
    ensures
        r@ == dot_file_path(folder@, ext@),
{
    let dot: Vec<char> = vec!['.'];
    assert(dot@ =~= seq!['.']);
    let raw = join_chars(folder, &dot);
    let k = strip_tail_len(&raw);
    let start = after_last_slash(&raw, k);
    let ghost t = raw@.take(k as int);
    assert(raw@.take(k as int).take(k as int) =~= t);
    proof {
        lemma_last_slash_range(t);
    }
    let mut comp: Vec<char> = Vec::new();
    let mut i: usize = start;
    while i < k
        invariant
            start <= i <= k <= raw.len(),
            comp@ == raw@.subrange(start as int, i as int),
        decreases k - i,
    {
        comp.push(raw[i]);
        i = i + 1;
        assert(comp@ =~= raw@.subrange(start as int, i as int));
    }
    assert(comp@ =~= t.subrange(start as int, t.len() as int));
    let special = comp.len() == 0 || (comp.len() == 1 && comp[0] == '.') || (comp.len() == 2
        && comp[0] == '.' && comp[1] == '.');
    proof {
        if comp.len() == 1 && comp@[0] == '.' {
            assert(comp@ =~= seq!['.']);
        }
        if comp.len() == 2 && comp@[0] == '.' && comp@[1] == '.' {
            assert(comp@ =~= seq!['.', '.']);
        }
    }
    if special {
        return raw;
    }
    let mut out: Vec<char> = Vec::new();
    let mut j: usize = 0;
    while j < start
        invariant
            j <= start <= k <= raw.len(),
            out@ == raw@.take(j as int),
        decreases start - j,
    {
        out.push(raw[j]);
        j = j + 1;
        assert(out@ =~= raw@.take(j as int));
    }
    assert(out@ =~= t.take(start as int));
    let file = replace_extension(&comp, ext);
    append_chars(&mut out, &file);
    out
}

pub proof fn lemma_last_slash_range(s: Seq<char>)
    ensures
        -1 <= last_slash(s) < s.len(),
    decreases s.len(),
{
    if s.len() > 0 && s.last() != '/' {
        lemma_last_slash_range(s.drop_last());
    }
}

/// Whether `name` is exactly `.`.
pub fn is_current_marker(name: &Vec<char>) -> (b: bool)
    ensures
        b == (name@ == seq!['.']),
{
    let r = name.len() == 1 && name[0] == '.';
    proof {
        if name.len() == 1 && name@[0] == '.' {
            assert(name@ =~= seq!['.']);
        }
    }
    r
}

/// The path of file `name` with extension `ext` inside `folder`.
pub fn build_file_path(folder: &Vec<char>, name: &Vec<char>, ext: &Vec<char>) -> (r: Vec<char>)
    ensures
        r@ == file_path(folder@, name@, ext@),
{
    if is_parent_marker(name) {
        join_chars(folder, name)
    } else if is_current_marker(name) {
        build_dot_path(folder, ext)
    } else {
        let file = replace_extension(name, ext);
        join_chars(folder, &file)
    }
}

} // verus!
