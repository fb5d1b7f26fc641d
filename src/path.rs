use vstd::prelude::*;

use vstd::string::{StrSliceExecFns, StringExecFns};

verus! {

/// `h` moved back over the `/` characters that end `p[..h]`.
pub open spec fn strip_slashes(p: Seq<char>, h: int) -> int
    decreases h,
{
    if 0 < h <= p.len() && p[h - 1] == '/' {
        strip_slashes(p, h - 1)
    } else {
        h
    }
}

/// The start of the last component of `p[..h]`: just after the last `/`.
pub open spec fn component_start(p: Seq<char>, h: int) -> int
    decreases h,
{
    if 0 < h <= p.len() && p[h - 1] != '/' {
        component_start(p, h - 1)
    } else {
        h
    }
}

/// The final component of a `/`-separated path, trailing slashes ignored;
/// `None` where it is empty, `.` or `..`.
pub open spec fn file_name(p: Seq<char>) -> Option<Seq<char>> {
    let h = strip_slashes(p, p.len() as int);
    let b = component_start(p, h);
    let last = p.subrange(b, h);
    if last.len() == 0 || last == seq!['.'] || last == seq!['.', '.'] {
        None
    } else {
        Some(last)
    }
}

/// The final component of `path`, the name under which it is staged in the
/// working directory.
pub fn final_component(path: &String) -> (r: Option<String>)
    ensures
        match r {
            Some(n) => file_name(path@) == Some(n@),
            None => file_name(path@) is None,
        },
{
    let s = path.as_str();
    let n = s.unicode_len();
    let mut h = n;
    while 0 < h && s.get_char(h - 1) == '/'
        invariant
            h <= n == s@.len(),
            strip_slashes(s@, n as int) == strip_slashes(s@, h as int),
        decreases h,
    {
        h = h - 1;
    }
    let mut b = h;
    while 0 < b && s.get_char(b - 1) != '/'
        invariant
            b <= h <= n == s@.len(),
            component_start(s@, h as int) == component_start(s@, b as int),
        decreases b,
    {
        b = b - 1;
    }
    let last = s.substring_char(b, h);
    let len = h - b;
    if len == 0 {
        return None;
    }
    let first = last.get_char(0);
    if len == 1 && first == '.' {
        assert(last@ =~= seq!['.']);
        return None;
    }
    if len == 2 && first == '.' && last.get_char(1) == '.' {
        assert(last@ =~= seq!['.', '.']);
        return None;
    }
    assert(last@ != seq!['.']) by {
        if len == 1 {
            assert(seq!['.'][0] == '.');
        }
    }
    assert(last@ != seq!['.', '.']) by {
        if len == 2 {
            assert(seq!['.', '.'][0] == '.');
            assert(seq!['.', '.'][1] == '.');
        }
    }
    Some(String::from_str(last))
}

} // verus!
