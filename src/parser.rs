use vstd::prelude::*;

use crate::attributes::{files_named, pairs, texts, Attributes, ConfigError, EnvVar, Fault, SealedTestAttributes, no_attributes};
use crate::path::{file_name, final_component};
use crate::literal::{decode_literal, is_expression, literal_value, parses_as_expression};
use vstd::string::{StrSliceExecFns, StringExecFns};

verus! {

pub open spec fn is_space(c: char) -> bool {
    c == ' ' || c == '\t' || c == '\n' || c == '\r'
}

pub open spec fn is_word_char(c: char) -> bool {
    ('a' <= c && c <= 'z') || ('A' <= c && c <= 'Z') || ('0' <= c && c <= '9') || c == '_'
}

pub open spec fn is_open(c: char) -> bool {
    c == '(' || c == '[' || c == '{'
}

pub open spec fn is_close(c: char) -> bool {
    c == ')' || c == ']' || c == '}'
}

/// The first position at or after `i` that does not hold white space.
pub open spec fn skip_spaces(s: Seq<char>, i: int) -> int
    decreases s.len() - i,
{
    if 0 <= i < s.len() && is_space(s[i]) {
        skip_spaces(s, i + 1)
    } else {
        i
    }
}

/// The end of the run of word characters that starts at `i`.
pub open spec fn word_end(s: Seq<char>, i: int) -> int
    decreases s.len() - i,
{
    if 0 <= i < s.len() && is_word_char(s[i]) {
        word_end(s, i + 1)
    } else {
        i
    }
}

/// Inside a string literal from `j` on: the position just after its closing
/// quote, with `\` escaping the character after it.
pub open spec fn quote_end(s: Seq<char>, j: int) -> Option<int>
    decreases s.len() - j,
{
    if j < 0 || j >= s.len() {
        None
    } else if s[j] == '\\' {
        if j + 1 < s.len() {
            quote_end(s, j + 2)
        } else {
            None
        }
    } else if s[j] == '"' {
        Some(j + 1)
    } else {
        quote_end(s, j + 1)
    }
}

/// Walks balanced text from `j`, `depth` brackets deep, inside a string
/// literal when `quoted`. It stops at the first closing bracket outside any
/// bracket opened here, at the end of the text, and, when `commas`, at a comma
/// outside brackets. `None` where the text ends inside a literal or a bracket.
/// Brackets inside string literals do not count.
pub open spec fn scan(s: Seq<char>, j: int, depth: nat, quoted: bool, commas: bool) -> Option<int>
    decreases s.len() - j,
{
    if j < 0 || j >= s.len() {
        if !quoted && depth == 0 && j == s.len() {
            Some(j)
        } else {
            None
        }
    } else if quoted {
        if s[j] == '\\' {
            if j + 1 < s.len() {
                scan(s, j + 2, depth, true, commas)
            } else {
                None
            }
        } else if s[j] == '"' {
            scan(s, j + 1, depth, false, commas)
        } else {
            scan(s, j + 1, depth, true, commas)
        }
    } else if s[j] == '"' {
        scan(s, j + 1, depth, true, commas)
    } else if is_open(s[j]) {
        scan(s, j + 1, depth + 1, false, commas)
    } else if is_close(s[j]) {
        if depth == 0 {
            Some(j)
        } else {
            scan(s, j + 1, (depth - 1) as nat, false, commas)
        }
    } else if commas && depth == 0 && s[j] == ',' {
        Some(j)
    } else {
        scan(s, j + 1, depth, false, commas)
    }
}

/// `hi` moved back over the white space that ends `s[lo..hi]`.
pub open spec fn trim_end(s: Seq<char>, lo: int, hi: int) -> int
    decreases hi - lo,
{
    if lo < hi && is_space(s[hi - 1]) {
        trim_end(s, lo, hi - 1)
    } else {
        hi
    }
}

proof fn lemma_skip_spaces(s: Seq<char>, i: int)
    ensures
        i <= skip_spaces(s, i),
        i <= s.len() ==> skip_spaces(s, i) <= s.len(),
    decreases s.len() - i,
{
    if 0 <= i < s.len() && is_space(s[i]) {
        lemma_skip_spaces(s, i + 1);
    }
}

proof fn lemma_quote_end(s: Seq<char>, j: int)
    ensures
        quote_end(s, j) matches Some(k) ==> j < k <= s.len(),
    decreases s.len() - j,
{
    if 0 <= j < s.len() {
        if s[j] == '\\' {
            if j + 1 < s.len() {
                lemma_quote_end(s, j + 2);
            }
        } else if s[j] != '"' {
            lemma_quote_end(s, j + 1);
        }
    }
}

proof fn lemma_scan(s: Seq<char>, j: int, depth: nat, quoted: bool, commas: bool)
    ensures
        scan(s, j, depth, quoted, commas) matches Some(k) ==> j <= k <= s.len(),
    decreases s.len() - j,
{
    if 0 <= j < s.len() {
        if quoted {
            if s[j] == '\\' {
                if j + 1 < s.len() {
                    lemma_scan(s, j + 2, depth, true, commas);
                }
            } else if s[j] == '"' {
                lemma_scan(s, j + 1, depth, false, commas);
            } else {
                lemma_scan(s, j + 1, depth, true, commas);
            }
        } else if s[j] == '"' {
            lemma_scan(s, j + 1, depth, true, commas);
        } else if is_open(s[j]) {
            lemma_scan(s, j + 1, depth + 1, false, commas);
        } else if is_close(s[j]) {
            if depth > 0 {
                lemma_scan(s, j + 1, (depth - 1) as nat, false, commas);
            }
        } else if !(commas && depth == 0 && s[j] == ',') {
            lemma_scan(s, j + 1, depth, false, commas);
        }
    }
}

proof fn lemma_trim_end(s: Seq<char>, lo: int, hi: int)
    requires
        lo <= hi,
    ensures
        lo <= trim_end(s, lo, hi) <= hi,
    decreases hi - lo,
{
    if lo < hi && is_space(s[hi - 1]) {
        lemma_trim_end(s, lo, hi - 1);
    }
}

fn space(c: char) -> (r: bool)
    ensures
        r == is_space(c),
{
    c == ' ' || c == '\t' || c == '\n' || c == '\r'
}

fn word_char(c: char) -> (r: bool)
    ensures
        r == is_word_char(c),
{
    ('a' <= c && c <= 'z') || ('A' <= c && c <= 'Z') || ('0' <= c && c <= '9') || c == '_'
}

fn skip_ws(cs: &Vec<char>, i: usize) -> (r: usize)
    requires
        i <= cs@.len(),
    ensures
        r == skip_spaces(cs@, i as int),
        i <= r <= cs@.len(),
{
    let mut j = i;
    while j < cs.len() && space(cs[j])
        invariant
            i <= j <= cs@.len(),
            skip_spaces(cs@, i as int) == skip_spaces(cs@, j as int),
        decreases cs@.len() - j,
    {
        j = j + 1;
    }
    j
}

fn word_stop(cs: &Vec<char>, i: usize) -> (r: usize)
    requires
        i <= cs@.len(),
    ensures
        r == word_end(cs@, i as int),
        i <= r <= cs@.len(),
{
    let mut j = i;
    while j < cs.len() && word_char(cs[j])
        invariant
            i <= j <= cs@.len(),
            word_end(cs@, i as int) == word_end(cs@, j as int),
        decreases cs@.len() - j,
    {
        j = j + 1;
    }
    j
}

fn quote_stop(cs: &Vec<char>, i: usize) -> (r: Option<usize>)
    requires
        i <= cs@.len(),
    ensures
        match r {
            Some(k) => quote_end(cs@, i as int) == Some(k as int) && i < k <= cs@.len(),
            None => quote_end(cs@, i as int) is None,
        },
{
    let mut j = i;
    while j < cs.len()
        invariant
            i <= j <= cs@.len(),
            quote_end(cs@, i as int) == quote_end(cs@, j as int),
        decreases cs@.len() - j,
    {
        if cs[j] == '\\' {
            if j + 1 < cs.len() {
                j = j + 2;
            } else {
                return None;
            }
        } else if cs[j] == '"' {
            return Some(j + 1);
        } else {
            j = j + 1;
        }
    }
    None
}

fn scan_stop(cs: &Vec<char>, i: usize, commas: bool) -> (r: Option<usize>)
    requires
        i <= cs@.len(),
    ensures
        match r {
            Some(k) => scan(cs@, i as int, 0, false, commas) == Some(k as int) && i <= k <= cs@.len(),
            None => scan(cs@, i as int, 0, false, commas) is None,
        },
{
    let mut j = i;
    let mut depth: usize = 0;
    let mut quoted = false;
    loop
        invariant
            i <= j <= cs@.len(),
            depth <= j,
            scan(cs@, i as int, 0, false, commas) == scan(cs@, j as int, depth as nat, quoted, commas),
        decreases cs@.len() - j,
    {
        if j >= cs.len() {
            if !quoted && depth == 0 {
                return Some(j);
            } else {
                return None;
            }
        }
        let c = cs[j];
        if quoted {
            if c == '\\' {
                if j + 1 < cs.len() {
                    j = j + 2;
                } else {
                    return None;
                }
            } else if c == '"' {
                quoted = false;
                j = j + 1;
            } else {
                j = j + 1;
            }
        } else if c == '"' {
            quoted = true;
            j = j + 1;
        } else if c == '(' || c == '[' || c == '{' {
            depth = depth + 1;
            j = j + 1;
        } else if c == ')' || c == ']' || c == '}' {
            if depth == 0 {
                return Some(j);
            }
            depth = depth - 1;
            j = j + 1;
        } else if commas && depth == 0 && c == ',' {
            return Some(j);
        } else {
            j = j + 1;
        }
    }
}

fn trim_stop(cs: &Vec<char>, lo: usize, hi: usize) -> (r: usize)
    requires
        lo <= hi <= cs@.len(),
    ensures
        r == trim_end(cs@, lo as int, hi as int),
        lo <= r <= hi,
{
    let mut h = hi;
    while lo < h && space(cs[h - 1])
        invariant
            lo <= h <= hi <= cs@.len(),
            trim_end(cs@, lo as int, hi as int) == trim_end(cs@, lo as int, h as int),
        decreases h - lo,
    {
        h = h - 1;
    }
    h
}

/// A string literal starting at `p`: its value and the position after it.
pub open spec fn string_item(s: Seq<char>, p: int) -> Result<(Seq<char>, int), int> {
    if 0 <= p < s.len() && s[p] == '"' {
        match quote_end(s, p + 1) {
            Some(q) => match literal_value(s.subrange(p, q)) {
                Some(v) => Ok((v, q)),
                None => Err(p),
            },
            None => Err(p),
        }
    } else {
        Err(p)
    }
}

proof fn lemma_string_item(s: Seq<char>, p: int)
    ensures
        string_item(s, p) matches Ok((v, q)) ==> p < q <= s.len(),
{
    lemma_quote_end(s, p + 1);
}

/// The rest of a bracketed list of paths from `j`, each of which must have a
/// final component; `acc` holds the paths read so far.
pub open spec fn file_list(s: Seq<char>, j: int, acc: Seq<Seq<char>>) -> Result<(Seq<Seq<char>>, int), int>
    decreases s.len() - j,
    via file_list_decreases
{
    let p = skip_spaces(s, j);
    if p < 0 || p >= s.len() {
        Err(p)
    } else if s[p] == ']' {
        Ok((acc, p + 1))
    } else {
        match string_item(s, p) {
            Err(e) => Err(e),
            Ok((v, q)) => {
                let t = skip_spaces(s, q);
                if file_name(v) is None {
                    Err(p)
                } else if t < s.len() && s[t] == ',' {
                    file_list(s, t + 1, acc.push(v))
                } else if t < s.len() && s[t] == ']' {
                    Ok((acc.push(v), t + 1))
                } else {
                    Err(t)
                }
            },
        }
    }
}

#[via_fn]
proof fn file_list_decreases(s: Seq<char>, j: int, acc: Seq<Seq<char>>) {
    let p = skip_spaces(s, j);
    lemma_skip_spaces(s, j);
    lemma_string_item(s, p);
    if let Ok((v, q)) = string_item(s, p) {
        lemma_skip_spaces(s, q);
    }
}

/// A parenthesised pair of string literals starting at `p`.
pub open spec fn env_pair(s: Seq<char>, p: int) -> Result<((Seq<char>, Seq<char>), int), int> {
    if 0 <= p < s.len() && s[p] == '(' {
        match string_item(s, skip_spaces(s, p + 1)) {
            Err(e) => Err(e),
            Ok((n, q)) => {
                let c = skip_spaces(s, q);
                if c < s.len() && s[c] == ',' {
                    match string_item(s, skip_spaces(s, c + 1)) {
                        Err(e) => Err(e),
                        Ok((v, r)) => {
                            let e = skip_spaces(s, r);
                            if e < s.len() && s[e] == ')' {
                                Ok(((n, v), e + 1))
                            } else {
                                Err(e)
                            }
                        },
                    }
                } else {
                    Err(c)
                }
            },
        }
    } else {
        Err(p)
    }
}

proof fn lemma_env_pair(s: Seq<char>, p: int)
    ensures
        env_pair(s, p) matches Ok((nv, q)) ==> p < q <= s.len(),
{
    lemma_skip_spaces(s, p + 1);
    let a = skip_spaces(s, p + 1);
    lemma_string_item(s, a);
    if let Ok((n, q)) = string_item(s, a) {
        lemma_skip_spaces(s, q);
        let c = skip_spaces(s, q);
        lemma_skip_spaces(s, c + 1);
        let b = skip_spaces(s, c + 1);
        lemma_string_item(s, b);
        if let Ok((v, r)) = string_item(s, b) {
            lemma_skip_spaces(s, r);
        }
    }
}

/// The rest of a bracketed list of pairs from `j`; `acc` holds the pairs read
/// so far.
pub open spec fn env_list(s: Seq<char>, j: int, acc: Seq<(Seq<char>, Seq<char>)>) -> Result<(Seq<(Seq<char>, Seq<char>)>, int), int>
    decreases s.len() - j,
    via env_list_decreases
{
    let p = skip_spaces(s, j);
    if p < 0 || p >= s.len() {
        Err(p)
    } else if s[p] == ']' {
        Ok((acc, p + 1))
    } else {
        match env_pair(s, p) {
            Err(e) => Err(e),
            Ok((nv, q)) => {
                let t = skip_spaces(s, q);
                if t < s.len() && s[t] == ',' {
                    env_list(s, t + 1, acc.push(nv))
                } else if t < s.len() && s[t] == ']' {
                    Ok((acc.push(nv), t + 1))
                } else {
                    Err(t)
                }
            },
        }
    }
}

#[via_fn]
proof fn env_list_decreases(s: Seq<char>, j: int, acc: Seq<(Seq<char>, Seq<char>)>) {
    let p = skip_spaces(s, j);
    lemma_skip_spaces(s, j);
    lemma_env_pair(s, p);
    if let Ok((nv, q)) = env_pair(s, p) {
        lemma_skip_spaces(s, q);
    }
}

/// An expression starting at `p`: the text up to the next comma or closing
/// bracket outside brackets and literals, trailing white space dropped. It
/// must be non-empty and read as one expression.
pub open spec fn expr_item(s: Seq<char>, p: int) -> Result<(Seq<char>, int), int> {
    match scan(s, p, 0, false, true) {
        None => Err(p),
        Some(e) => {
            let h = trim_end(s, p, e);
            if h <= p || !is_expression(s.subrange(p, h)) {
                Err(p)
            } else {
                Ok((s.subrange(p, h), e))
            }
        },
    }
}

proof fn lemma_expr_item(s: Seq<char>, p: int)
    ensures
        expr_item(s, p) matches Ok((x, q)) ==> p < q <= s.len(),
{
    lemma_scan(s, p, 0, false, true);
    if let Some(e) = scan(s, p, 0, false, true) {
        lemma_trim_end(s, p, e);
    }
}

/// A brace-delimited command block starting at `p`: its inner text, kept as
/// written, and the position after the closing brace.
pub open spec fn block_item(s: Seq<char>, p: int) -> Result<(Seq<char>, int), int> {
    if 0 <= p < s.len() && s[p] == '{' {
        match scan(s, p + 1, 0, false, false) {
            Some(c) => if c < s.len() && s[c] == '}' {
                Ok((s.subrange(p + 1, c), c + 1))
            } else {
                Err(p)
            },
            None => Err(p),
        }
    } else {
        Err(p)
    }
}

proof fn lemma_block_item(s: Seq<char>, p: int)
    ensures
        block_item(s, p) matches Ok((x, q)) ==> p < q <= s.len(),
{
    lemma_scan(s, p + 1, 0, false, false);
}

/// The index of a configuration key: `files`, `env`, `before`, `after`,
/// `cmd_before`, `cmd_after` in that order.
pub open spec fn key_of(w: Seq<char>) -> Option<int> {
    if w == "files"@ {
        Some(0)
    } else if w == "env"@ {
        Some(1)
    } else if w == "before"@ {
        Some(2)
    } else if w == "after"@ {
        Some(3)
    } else if w == "cmd_before"@ {
        Some(4)
    } else if w == "cmd_after"@ {
        Some(5)
    } else {
        None
    }
}

/// The value of key `k` starting at `p`, stored into `acc`.
pub open spec fn value(s: Seq<char>, k: int, p: int, acc: Attributes) -> Result<(Attributes, int), int> {
    if k == 0 || k == 1 {
        if !(0 <= p < s.len() && s[p] == '[') {
            Err(p)
        } else if k == 0 {
            match file_list(s, p + 1, Seq::empty()) {
                Ok((files, q)) => Ok((Attributes { files, ..acc }, q)),
                Err(e) => Err(e),
            }
        } else {
            match env_list(s, p + 1, Seq::empty()) {
                Ok((env, q)) => Ok((Attributes { env, ..acc }, q)),
                Err(e) => Err(e),
            }
        }
    } else if k == 2 || k == 3 {
        match expr_item(s, p) {
            Ok((x, q)) => Ok(
                (if k == 2 {
                    Attributes { before: Some(x), ..acc }
                } else {
                    Attributes { after: Some(x), ..acc }
                }, q),
            ),
            Err(e) => Err(e),
        }
    } else {
        match block_item(s, p) {
            Ok((x, q)) => Ok(
                (if k == 4 {
                    Attributes { cmd_before: Some(x), ..acc }
                } else {
                    Attributes { cmd_after: Some(x), ..acc }
                }, q),
            ),
            Err(e) => Err(e),
        }
    }
}

proof fn lemma_value(s: Seq<char>, k: int, p: int, acc: Attributes)
    ensures
        value(s, k, p, acc) matches Ok((a, q)) ==> p < q <= s.len(),
{
    lemma_file_list(s, p + 1, Seq::empty());
    lemma_env_list(s, p + 1, Seq::empty());
    lemma_expr_item(s, p);
    lemma_block_item(s, p);
}

proof fn lemma_file_list(s: Seq<char>, j: int, acc: Seq<Seq<char>>)
    ensures
        file_list(s, j, acc) matches Ok((a, q)) ==> j < q <= s.len(),
    decreases s.len() - j,
{
    let p = skip_spaces(s, j);
    lemma_skip_spaces(s, j);
    lemma_string_item(s, p);
    if 0 <= p < s.len() && s[p] != ']' {
        if let Ok((v, q)) = string_item(s, p) {
            lemma_skip_spaces(s, q);
            let t = skip_spaces(s, q);
            if file_name(v) is Some && t < s.len() && s[t] == ',' {
                lemma_file_list(s, t + 1, acc.push(v));
            }
        }
    }
}

proof fn lemma_env_list(s: Seq<char>, j: int, acc: Seq<(Seq<char>, Seq<char>)>)
    ensures
        env_list(s, j, acc) matches Ok((a, q)) ==> j < q <= s.len(),
    decreases s.len() - j,
{
    let p = skip_spaces(s, j);
    lemma_skip_spaces(s, j);
    lemma_env_pair(s, p);
    if 0 <= p < s.len() && s[p] != ']' {
        if let Ok((nv, q)) = env_pair(s, p) {
            lemma_skip_spaces(s, q);
            let t = skip_spaces(s, q);
            if t < s.len() && s[t] == ',' {
                lemma_env_list(s, t + 1, acc.push(nv));
            }
        }
    }
}

/// The entries from `i` on, read into `acc`; `seen[k]` tells whether key `k`
/// was given already.
pub open spec fn entries(s: Seq<char>, i: int, acc: Attributes, seen: Seq<bool>) -> Result<Attributes, Fault>
    decreases s.len() - i,
    via entries_decreases
{
    let p = skip_spaces(s, i);
    if p < 0 || p >= s.len() {
        Ok(acc)
    } else {
        let e = word_end(s, p);
        let name = s.subrange(p, e);
        if e == p {
            Err(Fault::Syntax(p))
        } else {
            match key_of(name) {
                None => Err(Fault::Unknown(name)),
                Some(k) => if seen[k] {
                    Err(Fault::Duplicate(name))
                } else {
                    let q = skip_spaces(s, e);
                    if !(q < s.len() && s[q] == '=') {
                        Err(Fault::Syntax(q))
                    } else {
                        match value(s, k, skip_spaces(s, q + 1), acc) {
                            Err(x) => Err(Fault::Syntax(x)),
                            Ok((next, r)) => {
                                let t = skip_spaces(s, r);
                                let n = if t < s.len() && s[t] == ',' {
                                    t + 1
                                } else {
                                    t
                                };
                                entries(s, n, next, seen.update(k, true))
                            },
                        }
                    }
                },
            }
        }
    }
}

proof fn lemma_word_end(s: Seq<char>, i: int)
    ensures
        i <= word_end(s, i),
        i <= s.len() ==> word_end(s, i) <= s.len(),
    decreases s.len() - i,
{
    if 0 <= i < s.len() && is_word_char(s[i]) {
        lemma_word_end(s, i + 1);
    }
}

#[via_fn]
proof fn entries_decreases(s: Seq<char>, i: int, acc: Attributes, seen: Seq<bool>) {
    let p = skip_spaces(s, i);
    lemma_skip_spaces(s, i);
    let e = word_end(s, p);
    lemma_word_end(s, p);
    let q = skip_spaces(s, e);
    lemma_skip_spaces(s, e);
    lemma_skip_spaces(s, q + 1);
    let v = skip_spaces(s, q + 1);
    if let Some(k) = key_of(s.subrange(p, e)) {
        lemma_value(s, k, v, acc);
        if let Ok((next, r)) = value(s, k, v, acc) {
            lemma_skip_spaces(s, r);
        }
    }
}

/// No key given yet.
pub open spec fn none_seen() -> Seq<bool> {
    Seq::new(6, |k: int| false)
}

/// What reading a whole configuration text gives.
pub open spec fn parse_spec(s: Seq<char>) -> Result<Attributes, Fault> {
    entries(s, 0, no_attributes(), none_seen())
}

fn string_at(text: &str, cs: &Vec<char>, p: usize) -> (r: Result<(String, usize), usize>)
    requires
        cs@ == text@,
        p <= cs@.len(),
    ensures
        match r {
            Ok((v, q)) => string_item(cs@, p as int) == Ok::<(Seq<char>, int), int>((v@, q as int))
                && p < q <= cs@.len(),
            Err(e) => string_item(cs@, p as int) == Err::<(Seq<char>, int), int>(e as int),
        },
{
    if p < cs.len() && cs[p] == '"' {
        match quote_stop(cs, p + 1) {
            Some(q) => match decode_literal(text.substring_char(p, q)) {
                Some(v) => Ok((v, q)),
                None => Err(p),
            },
            None => Err(p),
        }
    } else {
        Err(p)
    }
}

fn files_at(text: &str, cs: &Vec<char>, j0: usize) -> (r: Result<(Vec<String>, usize), usize>)
    requires
        cs@ == text@,
        j0 <= cs@.len(),
    ensures
        match r {
            Ok((fs, q)) => file_list(cs@, j0 as int, Seq::empty()) == Ok::<(Seq<Seq<char>>, int), int>(
                (texts(fs@), q as int),
            ) && j0 < q <= cs@.len() && files_named(texts(fs@)),
            Err(e) => file_list(cs@, j0 as int, Seq::empty()) == Err::<(Seq<Seq<char>>, int), int>(
                e as int,
            ),
        },
{
    let mut files: Vec<String> = Vec::new();
    let mut j = j0;
    assert(texts(files@) =~= Seq::<Seq<char>>::empty());
    loop
        invariant
            cs@ == text@,
            j0 <= j <= cs@.len(),
            file_list(cs@, j0 as int, Seq::empty()) == file_list(cs@, j as int, texts(files@)),
            files_named(texts(files@)),
        decreases cs@.len() - j,
    {
        let p = skip_ws(cs, j);
        if p >= cs.len() {
            return Err(p);
        }
        if cs[p] == ']' {
            return Ok((files, p + 1));
        }
        match string_at(text, cs, p) {
            Err(e) => {
                return Err(e);
            },
            Ok((v, q)) => {
                let t = skip_ws(cs, q);
                if final_component(&v).is_none() {
                    return Err(p);
                }
                assert(file_name(v@) is Some);
                let ghost before = texts(files@);
                files.push(v);
                assert(texts(files@) =~= before.push(v@));
                if t < cs.len() && cs[t] == ',' {
                    j = t + 1;
                } else if t < cs.len() && cs[t] == ']' {
                    return Ok((files, t + 1));
                } else {
                    return Err(t);
                }
            },
        }
    }
}

fn pair_at(text: &str, cs: &Vec<char>, p: usize) -> (r: Result<(EnvVar, usize), usize>)
    requires
        cs@ == text@,
        p <= cs@.len(),
    ensures
        match r {
            Ok((nv, q)) => env_pair(cs@, p as int) == Ok::<((Seq<char>, Seq<char>), int), int>(
                (nv@, q as int),
            ) && p < q <= cs@.len(),
            Err(e) => env_pair(cs@, p as int) == Err::<((Seq<char>, Seq<char>), int), int>(e as int),
        },
{
    if !(p < cs.len() && cs[p] == '(') {
        return Err(p);
    }
    let a = skip_ws(cs, p + 1);
    let (name, q) = match string_at(text, cs, a) {
        Err(e) => {
            return Err(e);
        },
        Ok(nq) => nq,
    };
    let c = skip_ws(cs, q);
    if !(c < cs.len() && cs[c] == ',') {
        return Err(c);
    }
    let b = skip_ws(cs, c + 1);
    let (value, r) = match string_at(text, cs, b) {
        Err(e) => {
            return Err(e);
        },
        Ok(vr) => vr,
    };
    let e = skip_ws(cs, r);
    if !(e < cs.len() && cs[e] == ')') {
        return Err(e);
    }
    Ok((EnvVar { name, value }, e + 1))
}

fn env_at(text: &str, cs: &Vec<char>, j0: usize) -> (r: Result<(Vec<EnvVar>, usize), usize>)
    requires
        cs@ == text@,
        j0 <= cs@.len(),
    ensures
        match r {
            Ok((vs, q)) => env_list(cs@, j0 as int, Seq::empty()) == Ok::<
                (Seq<(Seq<char>, Seq<char>)>, int),
                int,
            >((pairs(vs@), q as int)) && j0 < q <= cs@.len(),
            Err(e) => env_list(cs@, j0 as int, Seq::empty()) == Err::<
                (Seq<(Seq<char>, Seq<char>)>, int),
                int,
            >(e as int),
        },
{
    let mut vars: Vec<EnvVar> = Vec::new();
    let mut j = j0;
    assert(pairs(vars@) =~= Seq::<(Seq<char>, Seq<char>)>::empty());
    loop
        invariant
            cs@ == text@,
            j0 <= j <= cs@.len(),
            env_list(cs@, j0 as int, Seq::empty()) == env_list(cs@, j as int, pairs(vars@)),
        decreases cs@.len() - j,
    {
        let p = skip_ws(cs, j);
        if p >= cs.len() {
            return Err(p);
        }
        if cs[p] == ']' {
            return Ok((vars, p + 1));
        }
        match pair_at(text, cs, p) {
            Err(e) => {
                return Err(e);
            },
            Ok((nv, q)) => {
                let t = skip_ws(cs, q);
                let ghost before = pairs(vars@);
                vars.push(nv);
                assert(pairs(vars@) =~= before.push(nv@));
                if t < cs.len() && cs[t] == ',' {
                    j = t + 1;
                } else if t < cs.len() && cs[t] == ']' {
                    return Ok((vars, t + 1));
                } else {
                    return Err(t);
                }
            },
        }
    }
}

fn expr_at(text: &str, cs: &Vec<char>, p: usize) -> (r: Result<(String, usize), usize>)
    requires
        cs@ == text@,
        p <= cs@.len(),
    ensures
        match r {
            Ok((x, q)) => expr_item(cs@, p as int) == Ok::<(Seq<char>, int), int>((x@, q as int))
                && p < q <= cs@.len(),
            Err(e) => expr_item(cs@, p as int) == Err::<(Seq<char>, int), int>(e as int),
        },
{
    match scan_stop(cs, p, true) {
        None => Err(p),
        Some(e) => {
            let h = trim_stop(cs, p, e);
            if h <= p {
                return Err(p);
            }
            let x = text.substring_char(p, h);
            if !parses_as_expression(x) {
                return Err(p);
            }
            Ok((String::from_str(x), e))
        },
    }
}

fn block_at(text: &str, cs: &Vec<char>, p: usize) -> (r: Result<(String, usize), usize>)
    requires
        cs@ == text@,
        p <= cs@.len(),
    ensures
        match r {
            Ok((x, q)) => block_item(cs@, p as int) == Ok::<(Seq<char>, int), int>((x@, q as int))
                && p < q <= cs@.len(),
            Err(e) => block_item(cs@, p as int) == Err::<(Seq<char>, int), int>(e as int),
        },
{
    if !(p < cs.len() && cs[p] == '{') {
        return Err(p);
    }
    match scan_stop(cs, p + 1, false) {
        Some(c) => if c < cs.len() && cs[c] == '}' {
            Ok((String::from_str(text.substring_char(p + 1, c)), c + 1))
        } else {
            Err(p)
        },
        None => Err(p),
    }
}

fn key_index(word: &String) -> (r: Option<usize>)
    ensures
        match r {
            Some(k) => key_of(word@) == Some(k as int) && k < 6,
            None => key_of(word@) is None,
        },
{
    if word.eq(&String::from_str("files")) {
        Some(0)
    } else if word.eq(&String::from_str("env")) {
        Some(1)
    } else if word.eq(&String::from_str("before")) {
        Some(2)
    } else if word.eq(&String::from_str("after")) {
        Some(3)
    } else if word.eq(&String::from_str("cmd_before")) {
        Some(4)
    } else if word.eq(&String::from_str("cmd_after")) {
        Some(5)
    } else {
        None
    }
}

fn value_at(text: &str, cs: &Vec<char>, k: usize, p: usize, attrs: &mut SealedTestAttributes) -> (r: Result<usize, usize>)
    requires
        cs@ == text@,
        p <= cs@.len(),
        k < 6,
    ensures
        match r {
            Ok(q) => value(cs@, k as int, p as int, old(attrs)@) == Ok::<(Attributes, int), int>(
                (final(attrs)@, q as int),
            ) && p < q <= cs@.len(),
            Err(e) => value(cs@, k as int, p as int, old(attrs)@) == Err::<(Attributes, int), int>(
                e as int,
            ),
        },
        old(attrs).wf() ==> final(attrs).wf(),
{
    if k == 0 || k == 1 {
        if !(p < cs.len() && cs[p] == '[') {
            return Err(p);
        }
        if k == 0 {
            match files_at(text, cs, p + 1) {
                Ok((files, q)) => {
                    attrs.files = files;
                    Ok(q)
                },
                Err(e) => Err(e),
            }
        } else {
            match env_at(text, cs, p + 1) {
                Ok((env, q)) => {
                    attrs.env = env;
                    Ok(q)
                },
                Err(e) => Err(e),
            }
        }
    } else if k == 2 || k == 3 {
        match expr_at(text, cs, p) {
            Ok((x, q)) => {
                if k == 2 {
                    attrs.before = Some(x);
                } else {
                    attrs.after = Some(x);
                }
                Ok(q)
            },
            Err(e) => Err(e),
        }
    } else {
        match block_at(text, cs, p) {
            Ok((x, q)) => {
                if k == 4 {
                    attrs.cmd_before = Some(x);
                } else {
                    attrs.cmd_after = Some(x);
                }
                Ok(q)
            },
            Err(e) => Err(e),
        }
    }
}

/// Reads a configuration: `key = value` entries, each optionally followed by
/// a comma. `files = ["a", ...]` lists paths, each with a final component;
/// `env = [("NAME", "value"), ...]` lists variables; `before` and `after` take
/// one expression; `cmd_before` and `cmd_after` take a `{ ... }` command block.
/// A key outside that set, a key given twice, and a malformed value are
/// errors.
pub fn parse_attributes(input: &str) -> (r: Result<SealedTestAttributes, ConfigError>)
    ensures
        match r {
            Ok(a) => parse_spec(input@) == Ok::<Attributes, Fault>(a@) && a.wf(),
            Err(e) => parse_spec(input@) == Err::<Attributes, Fault>(e@),
        },
{
    let n = input.unicode_len();
    let mut cs: Vec<char> = Vec::new();
    let mut i: usize = 0;
    while i < n
        invariant
            i <= n == input@.len(),
            cs@ == input@.subrange(0, i as int),
        decreases n - i,
    {
        cs.push(input.get_char(i));
        i = i + 1;
        assert(cs@ =~= input@.subrange(0, i as int));
    }
    assert(cs@ =~= input@);
    let mut attrs = SealedTestAttributes::new();
    let mut seen: Vec<bool> = vec![false, false, false, false, false, false];
    assert(seen@ =~= none_seen());
    let mut i: usize = 0;
    loop
        invariant
            cs@ == input@,
            i <= cs@.len(),
            seen@.len() == 6,
            attrs.wf(),
            parse_spec(input@) == entries(cs@, i as int, attrs@, seen@),
        decreases cs@.len() - i,
    {
        let p = skip_ws(&cs, i);
        if p >= cs.len() {
            return Ok(attrs);
        }
        let e = word_stop(&cs, p);
        if e == p {
            return Err(ConfigError::Syntax { at: p });
        }
        let name = String::from_str(input.substring_char(p, e));
        let k = match key_index(&name) {
            None => {
                return Err(ConfigError::UnknownAttribute { name });
            },
            Some(k) => k,
        };
        if seen[k] {
            return Err(ConfigError::DuplicateAttribute { name });
        }
        let q = skip_ws(&cs, e);
        if !(q < cs.len() && cs[q] == '=') {
            return Err(ConfigError::Syntax { at: q });
        }
        let v = skip_ws(&cs, q + 1);
        match value_at(input, &cs, k, v, &mut attrs) {
            Err(x) => {
                return Err(ConfigError::Syntax { at: x });
            },
            Ok(r) => {
                let t = skip_ws(&cs, r);
                seen.set(k, true);
                if t < cs.len() && cs[t] == ',' {
                    i = t + 1;
                } else {
                    i = t;
                }
            },
        }
    }
}

} // verus!
