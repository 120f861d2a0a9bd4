use vstd::prelude::*;

verus! {

/// The baseline font size used when the terminal's configuration gives
/// none: 12 points, in hundredths.
pub const DEFAULT_BASELINE: u32 = 1200;

/// The configured baseline, or the default.
pub fn baseline_or_default(configured: Option<u32>) -> (r: u32)
    ensures
        r == match configured {
            Some(b) => b,
            None => DEFAULT_BASELINE,
        },
{
    match configured {
        Some(b) => b,
        None => DEFAULT_BASELINE,
    }
}

/// Why no font size could be read from a configuration text.
#[derive(Debug, Clone, Copy, PartialEq, Eq, Structural)]
pub enum FontSizeError {
    /// No `font_size` directive.
    NotFound,
    /// A `font_size` directive with nothing after it.
    NoValue,
}

impl FontSizeError {
    pub fn message(&self) -> (r: String)
        ensures
            *self == FontSizeError::NotFound ==> r@ == "font_size not found in kitty.conf"@,
            *self == FontSizeError::NoValue ==> r@ == "font_size found but has no value"@,
    {
        match self {
            FontSizeError::NotFound => String::from_str("font_size not found in kitty.conf"),
            FontSizeError::NoValue => String::from_str("font_size found but has no value"),
        }
    }
}

/// The message for a `font_size` value that is not a number.
pub open spec fn parse_failure_text(value: Seq<char>, reason: Seq<char>) -> Seq<char> {
    "Failed to parse font_size value '"@ + value + "': "@ + reason
}

pub fn parse_failure_message(value: &str, reason: &str) -> (r: String)
    ensures
        r@ == parse_failure_text(value@, reason@),
{
    let mut out = String::from_str("Failed to parse font_size value '");
    out.append(value);
    out.append("': ");
    out.append(reason);
    out
}

pub open spec fn is_space(b: u8) -> bool {
    b == 32 || b == 9 || b == 10 || b == 11 || b == 12 || b == 13
}

pub open spec fn trim_start(s: Seq<u8>) -> Seq<u8>
    decreases s.len(),
{
    if s.len() > 0 && is_space(s[0]) {
        trim_start(s.drop_first())
    } else {
        s
    }
}

pub open spec fn trim_end(s: Seq<u8>) -> Seq<u8>
    decreases s.len(),
{
    if s.len() > 0 && is_space(s.last()) {
        trim_end(s.drop_last())
    } else {
        s
    }
}

/// `s` without leading and trailing white space.
pub open spec fn trim(s: Seq<u8>) -> Seq<u8> {
    trim_end(trim_start(s))
}

/// The bytes of the directive's name.
pub open spec fn directive_name() -> Seq<u8> {
    seq![102u8, 111, 110, 116, 95, 115, 105, 122, 101]
}

/// Where the line that starts at `i` ends: at the first line feed from
/// `i` on, or at the end of the text.
pub open spec fn line_end(s: Seq<u8>, i: nat) -> nat
    decreases s.len() - i,
{
    if i >= s.len() || s[i as int] == 10 {
        i
    } else {
        line_end(s, i + 1)
    }
}

proof fn lemma_line_end_bounds(s: Seq<u8>, i: nat)
    ensures
        i <= line_end(s, i),
        i <= s.len() ==> line_end(s, i) <= s.len(),
    decreases s.len() - i,
{
    if !(i >= s.len() || s[i as int] == 10) {
        lemma_line_end_bounds(s, i + 1);
    }
}

/// The lines of a text from byte `start` on: split at each line feed; a
/// last line feed ends the last line rather than starting an empty one.
pub open spec fn lines_from(s: Seq<u8>, start: nat) -> Seq<Seq<u8>>
    decreases s.len() + 1 - start,
    via lines_from_decreases
{
    if start >= s.len() {
        Seq::empty()
    } else {
        let e = line_end(s, start);
        seq![s.subrange(start as int, e as int)] + lines_from(s, e + 1)
    }
}

#[via_fn]
proof fn lines_from_decreases(s: Seq<u8>, start: nat) {
    if start < s.len() {
        lemma_line_end_bounds(s, start);
    }
}

/// What one line says of the font size: nothing (blank, a comment or
/// another directive), or the trimmed text after `font_size`.
pub open spec fn line_directive(line: Seq<u8>) -> Option<Seq<u8>> {
    let t = trim(line);
    if t.len() > 0 && t[0] != 35 && t.len() >= 9 && t.take(9) == directive_name() {
        Some(trim(t.skip(9)))
    } else {
        None
    }
}

/// The value of the first `font_size` directive among the lines.
pub open spec fn scan_lines(ls: Seq<Seq<u8>>) -> Result<Seq<u8>, FontSizeError>
    decreases ls.len(),
{
    if ls.len() == 0 {
        Err(FontSizeError::NotFound)
    } else {
        match line_directive(ls[0]) {
            Some(v) => if v.len() == 0 {
                Err(FontSizeError::NoValue)
            } else {
                Ok(v)
            },
            None => scan_lines(ls.drop_first()),
        }
    }
}

/// The text of the first `font_size` directive of a configuration.
pub open spec fn font_size_text(s: Seq<u8>) -> Result<Seq<u8>, FontSizeError> {
    scan_lines(lines_from(s, 0))
}

proof fn lemma_trim_start_skip(s: Seq<u8>, k: int)
    requires
        0 <= k <= s.len(),
        forall|j: int| 0 <= j < k ==> is_space(s[j]),
    ensures
        trim_start(s) == trim_start(s.skip(k)),
    decreases k,
{
    if k > 0 {
        assert(s.skip(1) == s.drop_first());
        lemma_trim_start_skip(s.drop_first(), k - 1);
        assert(s.drop_first().skip(k - 1) =~= s.skip(k));
    } else {
        assert(s.skip(0) =~= s);
    }
}

proof fn lemma_trim_end_take(s: Seq<u8>, k: int)
    requires
        0 <= k <= s.len(),
        forall|j: int| k <= j < s.len() ==> is_space(s[j]),
    ensures
        trim_end(s) == trim_end(s.take(k)),
    decreases s.len() - k,
{
    if k < s.len() {
        assert(s.drop_last() =~= s.take(s.len() - 1));
        lemma_trim_end_take(s.drop_last(), k);
        assert(s.drop_last().take(k) =~= s.take(k));
    } else {
        assert(s.take(k) =~= s);
    }
}

/// The range `[lo, hi)` of `b` trimmed of white space at both ends.
fn trim_range(b: &[u8], lo: usize, hi: usize) -> (r: (usize, usize))
    requires
        lo <= hi <= b@.len(),
    ensures
        lo <= r.0 <= r.1 <= hi,
        b@.subrange(r.0 as int, r.1 as int) == trim(b@.subrange(lo as int, hi as int)),
{
    let ghost whole = b@.subrange(lo as int, hi as int);
    let mut a = lo;
    while a < hi && (b[a] == 32 || b[a] == 9 || b[a] == 10 || b[a] == 11 || b[a] == 12 || b[a] == 13)
        invariant
            lo <= a <= hi,
            hi <= b@.len(),
            whole == b@.subrange(lo as int, hi as int),
            forall|j: int| lo <= j < a ==> is_space(b@[j]),
        decreases hi - a,
    {
        a = a + 1;
    }
    proof {
        lemma_trim_start_skip(whole, a - lo);
        assert(whole.skip(a - lo) =~= b@.subrange(a as int, hi as int));
        let rest = b@.subrange(a as int, hi as int);
        assert(rest.len() == 0 || !is_space(rest[0]));
        assert(trim_start(rest) == rest);
    }
    let mut z = hi;
    while z > a && (b[z - 1] == 32 || b[z - 1] == 9 || b[z - 1] == 10 || b[z - 1] == 11 || b[z - 1] == 12
        || b[z - 1] == 13)
        invariant
            lo <= a <= z <= hi,
            hi <= b@.len(),
            forall|j: int| z <= j < hi ==> is_space(b@[j]),
        decreases z - a,
    {
        z = z - 1;
    }
    proof {
        let rest = b@.subrange(a as int, hi as int);
        lemma_trim_end_take(rest, z - a);
        assert(rest.take(z - a) =~= b@.subrange(a as int, z as int));
        let fin = b@.subrange(a as int, z as int);
        assert(fin.len() == 0 || !is_space(fin.last()));
        assert(trim_end(fin) == fin);
    }
    (a, z)
}

fn directive_of_line(b: &[u8], lo: usize, hi: usize) -> (r: Option<(usize, usize)>)
    requires
        lo <= hi <= b@.len(),
    ensures
        match r {
            Some((x, y)) => x <= y <= b@.len() && line_directive(b@.subrange(lo as int, hi as int))
                == Some(b@.subrange(x as int, y as int)),
            None => line_directive(b@.subrange(lo as int, hi as int)) is None,
        },
{
    let (a, z) = trim_range(b, lo, hi);
    let ghost t = b@.subrange(a as int, z as int);
    if z - a < 9 || b[a] == 35 {
        return None;
    }
    let name: [u8; 9] = [102u8, 111, 110, 116, 95, 115, 105, 122, 101];
    let mut k: usize = 0;
    while k < 9
        invariant
            a + 9 <= z <= b@.len(),
            t == b@.subrange(a as int, z as int),
            t == trim(b@.subrange(lo as int, hi as int)),
            t[0] != 35,
            name@ == directive_name(),
            k <= 9,
            forall|j: int| 0 <= j < k ==> t[j] == directive_name()[j],
        decreases 9 - k,
    {
        if b[a + k] != name[k] {
            assert(t.take(9)[k as int] != directive_name()[k as int]);
            assert(t.take(9) != directive_name());
            return None;
        }
        k = k + 1;
    }
    assert(t.take(9) =~= directive_name());
    let (x, y) = trim_range(b, a + 9, z);
    assert(t.skip(9) =~= b@.subrange(a + 9, z as int));
    Some((x, y))
}

/// Finds the first `font_size` directive of a configuration text, skipping
/// blank lines and comments, and returns the text of its value.
pub fn font_size_value(content: &[u8]) -> (r: Result<Vec<u8>, FontSizeError>)
    ensures
        match r {
            Ok(v) => font_size_text(content@) == Ok::<Seq<u8>, FontSizeError>(v@),
            Err(e) => font_size_text(content@) == Err::<Seq<u8>, FontSizeError>(e),
        },
{
    let b = content;
    let n = b.len();
    let mut start: usize = 0;
    while start < n
        invariant
            n == b@.len(),
            start <= n,
            b@ == content@,
            font_size_text(b@) == scan_lines(lines_from(b@, start as nat)),
        decreases n - start,
    {
        let mut end = start;
        while end < n && b[end] != 10
            invariant
                start <= end <= n,
                n == b@.len(),
                line_end(b@, start as nat) == line_end(b@, end as nat),
            decreases n - end,
        {
            end = end + 1;
        }
        proof {
            let ls = lines_from(b@, start as nat);
            assert(line_end(b@, end as nat) == end as nat);
            assert(ls == seq![b@.subrange(start as int, end as int)] + lines_from(b@, (end + 1) as nat));
            assert(ls.drop_first() =~= lines_from(b@, (end + 1) as nat));
            assert(ls[0] == b@.subrange(start as int, end as int));
        }
        match directive_of_line(b, start, end) {
            Some((x, y)) => {
                if x == y {
                    return Err(FontSizeError::NoValue);
                }
                let mut v: Vec<u8> = Vec::new();
                let mut k = x;
                while k < y
                    invariant
                        x <= k <= y <= b@.len(),
                        v@ == b@.subrange(x as int, k as int),
                    decreases y - k,
                {
                    v.push(b[k]);
                    k = k + 1;
                    assert(v@ =~= b@.subrange(x as int, k as int));
                }
                return Ok(v);
            },
            None => {},
        }
        start = if end == n {
            n
        } else {
            end + 1
        };
    }
    Err(FontSizeError::NotFound)
}

} // verus!
