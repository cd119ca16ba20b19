//! Shader-side type metadata and the shader-source preprocessor.
//!
//! A `ShaderType` lists, per resource slot, the variable qualifier (such as
//! `<uniform>` or `<storage, read>`) and the shader type name used when a
//! placeholder declaration is rewritten into a full binding declaration.

use vstd::prelude::*;

verus! {

/// Per-slot shader declaration metadata: one qualifier string and one type
/// name string per resource slot of a bindable value.
#[derive(Clone)]
pub struct ShaderType {
    pub var_types: Vec<String>,
    pub wgsl_types: Vec<String>,
}

/// Mathematical view of a `ShaderType`: the two string lists as sequences
/// of character sequences.
pub struct ShaderTypeView {
    pub var_types: Seq<Seq<char>>,
    pub wgsl_types: Seq<Seq<char>>,
}

impl View for ShaderType {
    type V = ShaderTypeView;

    open spec fn view(&self) -> ShaderTypeView {
        ShaderTypeView { var_types: self.var_types.deep_view(), wgsl_types: self.wgsl_types.deep_view() }
    }
}

/// The qualifier a storage-buffer slot declares, by writability.
pub open spec fn spec_storage_qualifier(writable: bool) -> Seq<char> {
    if writable {
        "<storage, read_write>"@
    } else {
        "<storage, read>"@
    }
}

/// The shader type of a runtime-sized buffer of `inner_type` elements.
pub open spec fn spec_array_type(inner_type: Seq<char>) -> Seq<char> {
    "array<"@ + inner_type + ">"@
}

impl ShaderType {
    /// Metadata for a single storage-buffer slot holding an array of
    /// `inner_type` elements, read-only or read-write as requested.
    pub fn buffer_type(writable: bool, inner_type: String) -> (r: ShaderType)
        ensures
            r@.var_types =~= seq![spec_storage_qualifier(writable)],
            r@.wgsl_types =~= seq![spec_array_type(inner_type@)],
    {
        let var_type: String = if writable {
            String::from_str("<storage, read_write>")
        } else {
            String::from_str("<storage, read>")
        };
        let mut wgsl: String = String::from_str("array<");
        wgsl.append(inner_type.as_str());
        wgsl.append(">");
        let mut var_types: Vec<String> = Vec::new();
        var_types.push(var_type);
        let mut wgsl_types: Vec<String> = Vec::new();
        wgsl_types.push(wgsl);
        ShaderType { var_types, wgsl_types }
    }

    /// Metadata for several storage-buffer slots at once: slot `i` is an
    /// array of `inner_type[i]` elements, writable as `writable[i]` says.
    pub fn multi_buffer_type(writable: Vec<bool>, inner_type: Vec<String>) -> (r: ShaderType)
        ensures
            r@.var_types.len() == writable@.len(),
            forall|i: int|
                0 <= i < writable@.len() ==> r@.var_types[i] == spec_storage_qualifier(
                    writable@[i],
                ),
            r@.wgsl_types.len() == inner_type@.len(),
            forall|i: int|
                0 <= i < inner_type@.len() ==> r@.wgsl_types[i] == spec_array_type(
                    inner_type@[i]@,
                ),
    {
        let mut var_types: Vec<String> = Vec::new();
        let mut i: usize = 0;
        while i < writable.len()
            invariant
                i <= writable@.len(),
                var_types@.len() == i,
                forall|j: int|
                    0 <= j < i ==> var_types@[j]@ == spec_storage_qualifier(writable@[j]),
            decreases writable@.len() - i,
        {
            if writable[i] {
                var_types.push(String::from_str("<storage, read_write>"));
            } else {
                var_types.push(String::from_str("<storage, read>"));
            }
            i = i + 1;
        }
        let mut wgsl_types: Vec<String> = Vec::new();
        let mut k: usize = 0;
        while k < inner_type.len()
            invariant
                k <= inner_type@.len(),
                wgsl_types@.len() == k,
                forall|j: int|
                    0 <= j < k ==> wgsl_types@[j]@ == spec_array_type(inner_type@[j]@),
            decreases inner_type@.len() - k,
        {
            let mut wgsl: String = String::from_str("array<");
            wgsl.append(inner_type[k].as_str());
            wgsl.append(">");
            wgsl_types.push(wgsl);
            k = k + 1;
        }
        let r = ShaderType { var_types, wgsl_types };
        assert(forall|j: int|
            0 <= j < writable@.len() ==> r@.var_types[j] == spec_storage_qualifier(writable@[j]));
        assert(forall|j: int|
            0 <= j < inner_type@.len() ==> r@.wgsl_types[j] == spec_array_type(inner_type@[j]@));
        r
    }
}

impl DeepView for ShaderType {
    type V = ShaderTypeView;

    open spec fn deep_view(&self) -> ShaderTypeView {
        self.view()
    }
}

/// Relies on str::chars: yields exactly the characters of the string, in
/// order.
#[verifier::external_body]
pub(crate) fn str_chars(s: &str) -> (r: Vec<char>)
    ensures
        r@ == s@,
{
    s.chars().collect()
}

/// Relies on Iterator::collect for String: concatenates exactly the given
/// characters, in order.
#[verifier::external_body]
pub(crate) fn chars_string(v: &Vec<char>) -> (r: String)
    ensures
        r@ == v@,
{
    v.iter().collect()
}

/// The first occurrence of `c` in `s` at or after `from`.
pub open spec fn spec_find(s: Seq<char>, from: int, c: char) -> Option<int>
    decreases s.len() - from,
    when 0 <= from <= s.len()
{
    if from >= s.len() {
        None
    } else if s[from] == c {
        Some(from)
    } else {
        spec_find(s, from + 1, c)
    }
}

/// What `spec_find` returns: an occurrence of `c` no earlier than `from`,
/// with none before it, or nothing when `c` does not occur from `from` on.
pub proof fn lemma_find_props(s: Seq<char>, from: int, c: char)
    requires
        0 <= from <= s.len(),
    ensures
        match spec_find(s, from, c) {
            Some(k) => from <= k < s.len() && s[k] == c && forall|j: int|
                from <= j < k ==> s[j] != c,
            None => forall|j: int| from <= j < s.len() ==> s[j] != c,
        },
    decreases s.len() - from,
{
    if from < s.len() && s[from] != c {
        lemma_find_props(s, from + 1, c);
    }
}

fn find_char(chars: &Vec<char>, from: usize, c: char) -> (r: Option<usize>)
    requires
        from <= chars@.len(),
    ensures
        match r {
            Some(k) => Some(k as int) == spec_find(chars@, from as int, c),
            None => spec_find(chars@, from as int, c) is None,
        },
{
    let mut i: usize = from;
    while i < chars.len()
        invariant
            from <= i <= chars@.len(),
            spec_find(chars@, from as int, c) == spec_find(chars@, i as int, c),
        decreases chars@.len() - i,
    {
        if chars[i] == c {
            return Some(i);
        }
        i = i + 1;
    }
    None
}

/// The first occurrence of `c` in `s` within `[from, to)`.
pub open spec fn spec_find_before(s: Seq<char>, from: int, to: int, c: char) -> Option<int>
    decreases to - from,
    when from <= to
{
    if from >= to {
        None
    } else if s[from] == c {
        Some(from)
    } else {
        spec_find_before(s, from + 1, to, c)
    }
}

/// What `spec_find_before` returns: an occurrence of `c` in the range, with
/// none before it, or nothing when the range holds no `c`.
pub proof fn lemma_find_before_props(s: Seq<char>, from: int, to: int, c: char)
    requires
        0 <= from <= to <= s.len(),
    ensures
        match spec_find_before(s, from, to, c) {
            Some(k) => from <= k < to && s[k] == c && forall|j: int| from <= j < k ==> s[j] != c,
            None => forall|j: int| from <= j < to ==> s[j] != c,
        },
    decreases to - from,
{
    if from < to && s[from] != c {
        lemma_find_before_props(s, from + 1, to, c);
    }
}

fn find_char_before(chars: &Vec<char>, from: usize, to: usize, c: char) -> (r: Option<usize>)
    requires
        from <= to <= chars@.len(),
    ensures
        match r {
            Some(k) => Some(k as int) == spec_find_before(chars@, from as int, to as int, c),
            None => spec_find_before(chars@, from as int, to as int, c) is None,
        },
{
    let mut i: usize = from;
    while i < to
        invariant
            from <= i <= to,
            to <= chars@.len(),
            spec_find_before(chars@, from as int, to as int, c) == spec_find_before(
                chars@,
                i as int,
                to as int,
                c,
            ),
        decreases to - i,
    {
        if chars[i] == c {
            return Some(i);
        }
        i = i + 1;
    }
    None
}

/// Whether `c` is a decimal digit.
pub open spec fn spec_is_digit(c: char) -> bool {
    '0' <= c && c <= '9'
}

/// The numeric value of a digit character.
pub open spec fn spec_digit_val(c: char) -> int {
    c as int - 48
}

/// Left-to-right decimal parsing of `s[i..]` with accumulator `acc`:
/// fails on a non-digit or when the value would not fit 32 bits.
pub open spec fn spec_parse_u32_rec(s: Seq<char>, i: int, acc: int) -> Option<int>
    decreases s.len() - i,
    when 0 <= i <= s.len()
{
    if i >= s.len() {
        Some(acc)
    } else if !spec_is_digit(s[i]) {
        None
    } else {
        let v = acc * 10 + spec_digit_val(s[i]);
        if v > 0xFFFF_FFFF {
            None
        } else {
            spec_parse_u32_rec(s, i + 1, v)
        }
    }
}

/// The value of `s` as an unsigned 32-bit decimal number, if it is one:
/// at least one digit, digits only, value within range.  Overlong numbers
/// and empty segments parse to nothing.
pub open spec fn spec_parse_u32(s: Seq<char>) -> Option<int> {
    if s.len() == 0 {
        None
    } else {
        spec_parse_u32_rec(s, 0, 0)
    }
}

/// A parsed value is a 32-bit value.
pub proof fn lemma_parse_u32_range(s: Seq<char>, i: int, acc: int)
    requires
        0 <= i <= s.len(),
        0 <= acc <= 0xFFFF_FFFF,
    ensures
        match spec_parse_u32_rec(s, i, acc) {
            Some(v) => 0 <= v <= 0xFFFF_FFFF,
            None => true,
        },
    decreases s.len() - i,
{
    if i < s.len() && spec_is_digit(s[i]) {
        let v = acc * 10 + spec_digit_val(s[i]);
        if v <= 0xFFFF_FFFF {
            lemma_parse_u32_range(s, i + 1, v);
        }
    }
}

fn parse_u32_range(chars: &Vec<char>, from: usize, to: usize) -> (r: Option<u32>)
    requires
        from <= to <= chars@.len(),
    ensures
        match r {
            Some(v) => spec_parse_u32(chars@.subrange(from as int, to as int)) == Some(v as int),
            None => spec_parse_u32(chars@.subrange(from as int, to as int)) is None,
        },
{
    let ghost sub = chars@.subrange(from as int, to as int);
    if from == to {
        return None;
    }
    let mut acc: u32 = 0;
    let mut i: usize = from;
    while i < to
        invariant
            from <= i <= to,
            to <= chars@.len(),
            sub == chars@.subrange(from as int, to as int),
            spec_parse_u32_rec(sub, (i - from) as int, acc as int) == spec_parse_u32_rec(sub, 0, 0),
        decreases to - i,
    {
        let c = chars[i];
        assert(sub[(i - from) as int] == chars@[i as int]);
        if !('0' <= c && c <= '9') {
            return None;
        }
        let d: u32 = (c as u32) - 48;
        assert(d as int == spec_digit_val(c));
        assert(d <= 9);
        if acc > (0xFFFF_FFFFu32 - d) / 10 {
            proof {
                let v = acc * 10 + spec_digit_val(c);
                assert(v > 0xFFFF_FFFF) by (nonlinear_arith)
                    requires
                        acc as int > (0xFFFF_FFFF - spec_digit_val(c)) / 10,
                        0 <= spec_digit_val(c) <= 9,
                        v == acc * 10 + spec_digit_val(c),
                        acc >= 0,
                ;
            }
            return None;
        }
        proof {
            let v = acc * 10 + spec_digit_val(c);
            assert(v <= 0xFFFF_FFFF) by (nonlinear_arith)
                requires
                    acc as int <= (0xFFFF_FFFF - spec_digit_val(c)) / 10,
                    0 <= spec_digit_val(c) <= 9,
                    v == acc * 10 + spec_digit_val(c),
                    acc >= 0,
            ;
        }
        acc = acc * 10 + d;
        i = i + 1;
    }
    Some(acc)
}

/// The comma-separated numbers of the placeholder span `s[from..to)`:
/// every segment must parse as a 32-bit decimal number, else nothing.
pub open spec fn spec_parse_ids(s: Seq<char>, from: int, to: int) -> Option<Seq<int>>
    decreases to - from,
    when 0 <= from <= to <= s.len()
    via spec_parse_ids_decreases
{
    match spec_find_before(s, from, to, ',') {
        None => match spec_parse_u32(s.subrange(from, to)) {
            None => None,
            Some(v) => Some(seq![v]),
        },
        Some(k) => match spec_parse_u32(s.subrange(from, k)) {
            None => None,
            Some(v) => match spec_parse_ids(s, k + 1, to) {
                None => None,
                Some(rest) => Some(seq![v] + rest),
            },
        },
    }
}

#[via_fn]
proof fn spec_parse_ids_decreases(s: Seq<char>, from: int, to: int) {
    lemma_find_before_props(s, from, to, ',');
}

/// A parsed id list has at least one entry, and every entry is a 32-bit
/// value.
pub proof fn lemma_parse_ids_props(s: Seq<char>, from: int, to: int)
    requires
        0 <= from <= to <= s.len(),
    ensures
        match spec_parse_ids(s, from, to) {
            Some(ids) => ids.len() >= 1 && forall|i: int|
                0 <= i < ids.len() ==> 0 <= #[trigger] ids[i] <= 0xFFFF_FFFF,
            None => true,
        },
    decreases to - from,
{
    lemma_find_before_props(s, from, to, ',');
    match spec_find_before(s, from, to, ',') {
        None => {
            if s.subrange(from, to).len() > 0 {
                lemma_parse_u32_range(s.subrange(from, to), 0, 0);
            }
        },
        Some(k) => {
            if s.subrange(from, k).len() > 0 {
                lemma_parse_u32_range(s.subrange(from, k), 0, 0);
            }
            lemma_parse_ids_props(s, k + 1, to);
        },
    }
}

fn parse_ids(chars: &Vec<char>, from: usize, to: usize) -> (r: Option<Vec<u32>>)
    requires
        from <= to <= chars@.len(),
    ensures
        match r {
            Some(ids) => Some(ids@.map_values(|x: u32| x as int)) == spec_parse_ids(
                chars@,
                from as int,
                to as int,
            ),
            None => spec_parse_ids(chars@, from as int, to as int) is None,
        },
{
    let mut ids: Vec<u32> = Vec::new();
    let mut cur: usize = from;
    loop
        invariant_except_break
            from <= cur <= to,
            to <= chars@.len(),
            spec_parse_ids(chars@, from as int, to as int) == match spec_parse_ids(
                chars@,
                cur as int,
                to as int,
            ) {
                None => None::<Seq<int>>,
                Some(rest) => Some(ids@.map_values(|x: u32| x as int) + rest),
            },
        ensures
            match spec_parse_ids(chars@, from as int, to as int) {
                Some(all) => all == ids@.map_values(|x: u32| x as int),
                None => false,
            },
        decreases to - cur,
    {
        let ghost ids_pre = ids@;
        match find_char_before(chars, cur, to, ',') {
            Some(k) => {
                proof {
                    lemma_find_before_props(chars@, cur as int, to as int, ',');
                }
                match parse_u32_range(chars, cur, k) {
                    None => {
                        return None;
                    },
                    Some(v) => {
                        ids.push(v);
                        proof {
                            assert(ids@.map_values(|x: u32| x as int) =~= ids_pre.map_values(
                                |x: u32| x as int,
                            ) + seq![v as int]);
                        }
                        cur = k + 1;
                        proof {
                            assert forall|rest: Seq<int>|
                                ids_pre.map_values(|x: u32| x as int) + (seq![v as int] + rest)
                                    =~= (ids_pre.map_values(|x: u32| x as int) + seq![v as int])
                                    + rest by {}
                        }
                    },
                }
            },
            None => {
                match parse_u32_range(chars, cur, to) {
                    None => {
                        return None;
                    },
                    Some(v) => {
                        ids.push(v);
                        proof {
                            assert(ids@.map_values(|x: u32| x as int) =~= ids_pre.map_values(
                                |x: u32| x as int,
                            ) + seq![v as int]);
                            assert(ids_pre.map_values(|x: u32| x as int) + seq![v as int]
                                =~= ids@.map_values(|x: u32| x as int));
                        }
                        break;
                    },
                }
            },
        }
    }
    Some(ids)
}

/// The index where the line holding position `i` starts: just after the
/// previous newline, or the start of the text.
pub open spec fn spec_line_start(s: Seq<char>, i: int) -> int
    decreases i,
    when i >= 0
{
    if i <= 0 {
        0
    } else if s[i - 1] == '\n' {
        i
    } else {
        spec_line_start(s, i - 1)
    }
}

fn line_start_of(chars: &Vec<char>, i: usize) -> (r: usize)
    requires
        i <= chars@.len(),
    ensures
        r as int == spec_line_start(chars@, i as int),
        r <= i,
{
    let mut j: usize = i;
    while j > 0
        invariant
            j <= i <= chars@.len(),
            spec_line_start(chars@, i as int) == spec_line_start(chars@, j as int),
        decreases j,
    {
        if chars[j - 1] == '\n' {
            return j;
        }
        j = j - 1;
    }
    j
}

/// The decimal digit character of a value below ten.
pub open spec fn spec_digit_char(d: int) -> char {
    if d == 0 {
        '0'
    } else if d == 1 {
        '1'
    } else if d == 2 {
        '2'
    } else if d == 3 {
        '3'
    } else if d == 4 {
        '4'
    } else if d == 5 {
        '5'
    } else if d == 6 {
        '6'
    } else if d == 7 {
        '7'
    } else if d == 8 {
        '8'
    } else {
        '9'
    }
}

/// The decimal representation of a nonnegative number.
pub open spec fn spec_dec(n: int) -> Seq<char>
    decreases n,
    when n >= 0
{
    if n < 10 {
        seq![spec_digit_char(n)]
    } else {
        spec_dec(n / 10) + seq![spec_digit_char(n % 10)]
    }
}

fn digit_char_of(d: u32) -> (r: char)
    requires
        d < 10,
    ensures
        r == spec_digit_char(d as int),
{
    if d == 0 {
        '0'
    } else if d == 1 {
        '1'
    } else if d == 2 {
        '2'
    } else if d == 3 {
        '3'
    } else if d == 4 {
        '4'
    } else if d == 5 {
        '5'
    } else if d == 6 {
        '6'
    } else if d == 7 {
        '7'
    } else if d == 8 {
        '8'
    } else {
        '9'
    }
}

fn push_dec(out: &mut Vec<char>, n: u32)
    ensures
        final(out)@ == old(out)@ + spec_dec(n as int),
    decreases n,
{
    if n >= 10 {
        proof {
            assert(n / 10 < n) by (nonlinear_arith)
                requires
                    n >= 10,
            ;
        }
        push_dec(out, n / 10);
        out.push(digit_char_of(n % 10));
        assert(out@ =~= old(out)@ + spec_dec(n as int));
    } else {
        out.push(digit_char_of(n));
        assert(out@ =~= old(out)@ + spec_dec(n as int));
    }
}

/// The full binding declaration a resolved placeholder is replaced with:
/// group and binding indices, the slot's qualifier, the declared variable
/// name, and the slot's shader type.
pub open spec fn spec_replacement(
    name: Seq<char>,
    g: int,
    b: int,
    var_type: Seq<char>,
    wgsl_type: Seq<char>,
) -> Seq<char> {
    "@group("@ + spec_dec(g) + ") @binding("@ + spec_dec(b) + ") var"@ + var_type + " "@ + name
        + " "@ + wgsl_type
}

/// One placeholder resolution at marker position `d`: the span from the
/// start of the marker's line to its terminator is replaced by the full
/// declaration, and scanning resumes after the replacement.  The step
/// yields nothing - the placeholder is left unresolved - when the marker
/// has no terminator, its span is not a comma-separated list of 32-bit
/// numbers, or the group or binding index is out of range.
pub open spec fn spec_resolve_step(
    text: Seq<char>,
    d: int,
    types: Seq<ShaderTypeView>,
) -> Option<(Seq<char>, int)> {
    match spec_find(text, d, ';') {
        None => None,
        Some(semi) => match spec_parse_ids(text, d + 1, semi) {
            None => None,
            Some(ids) => {
                let g = ids[0];
                if g >= types.len() {
                    None
                } else {
                    let b: int = if ids.len() >= 2 {
                        ids[1]
                    } else {
                        0
                    };
                    let st = types[g];
                    if b >= st.var_types.len() || b >= st.wgsl_types.len() {
                        None
                    } else {
                        let ls = spec_line_start(text, d);
                        let name = text.subrange(ls, d);
                        let repl = spec_replacement(name, g, b, st.var_types[b], st.wgsl_types[b]);
                        Some(
                            (
                                text.subrange(0, ls) + repl + text.subrange(
                                    semi,
                                    text.len() as int,
                                ),
                                ls + repl.len(),
                            ),
                        )
                    }
                }
            },
        },
    }
}

/// The preprocessor's scan from position `pos` with `fuel` substitutions
/// left: find the next marker, resolve it if its indices are in range, and
/// continue after the replacement; continue past the marker when it cannot
/// be resolved; stop when no marker remains or the substitution cap is
/// exhausted.
pub open spec fn spec_preprocess_from(
    text: Seq<char>,
    pos: int,
    fuel: nat,
    types: Seq<ShaderTypeView>,
) -> Seq<char>
    decreases fuel,
{
    if fuel == 0 {
        text
    } else {
        match spec_find(text, pos, '$') {
            None => text,
            Some(d) => match spec_resolve_step(text, d, types) {
                None => spec_preprocess_from(text, d + 1, (fuel - 1) as nat, types),
                Some((nt, np)) => spec_preprocess_from(nt, np, (fuel - 1) as nat, types),
            },
        }
    }
}

/// The text handed to the scanner: the shared type-definition block and
/// the host's custom type-definition block prepended to the shader source,
/// each under its header comment.
pub open spec fn spec_assembled(globals: Seq<char>, customs: Seq<char>, source: Seq<char>) -> Seq<
    char,
> {
    "//GLOBAL TYPES\n"@ + globals + "\n//CUSTOM TYPES\n"@ + customs + "\n//SHADER DEFINITION\n"@
        + source + "\n"@
}

/// The number of substitutions after which the scan gives up on malformed
/// input.
pub const SUBSTITUTION_CAP: u32 = 1000;

/// Law: a text without placeholder markers at or after the scan position
/// is returned unchanged, whatever the binding metadata.
pub proof fn lemma_preprocess_no_marker(
    text: Seq<char>,
    pos: int,
    fuel: nat,
    types: Seq<ShaderTypeView>,
)
    requires
        0 <= pos <= text.len(),
        forall|j: int| pos <= j < text.len() ==> text[j] != '$',
    ensures
        spec_preprocess_from(text, pos, fuel, types) == text,
{
    if fuel > 0 {
        lemma_find_props(text, pos, '$');
        match spec_find(text, pos, '$') {
            Some(k) => {
                assert(text[k] == '$');
                assert(false);
            },
            None => {},
        }
    }
}

/// An owned copy of `chars[from..to)`.
fn copy_range(chars: &Vec<char>, from: usize, to: usize) -> (r: Vec<char>)
    requires
        from <= to <= chars@.len(),
    ensures
        r@ == chars@.subrange(from as int, to as int),
{
    let mut out: Vec<char> = Vec::new();
    let mut i: usize = from;
    while i < to
        invariant
            from <= i <= to,
            to <= chars@.len(),
            out@ == chars@.subrange(from as int, i as int),
        decreases to - i,
    {
        out.push(chars[i]);
        assert(out@ =~= chars@.subrange(from as int, (i + 1) as int));
        i = i + 1;
    }
    out
}

/// Attempts to resolve the placeholder whose marker sits at `d`, returning
/// the rewritten text and the position scanning resumes at, or nothing
/// when the placeholder must be left unresolved.
fn try_resolve(text: &Vec<char>, d: usize, binding_types: &Vec<ShaderType>) -> (r: Option<
    (Vec<char>, usize),
>)
    requires
        d < text@.len(),
        text@[d as int] == '$',
    ensures
        match r {
            Some(step) => {
                &&& spec_resolve_step(text@, d as int, binding_types.deep_view()) == Some(
                    (step.0@, step.1 as int),
                )
                &&& step.1 <= step.0@.len()
            },
            None => spec_resolve_step(text@, d as int, binding_types.deep_view()) is None,
        },
{
    let ghost tv = binding_types.deep_view();
    proof {
        assert(tv.len() == binding_types@.len());
    }
    let semi = match find_char(text, d, ';') {
        None => {
            return None;
        },
        Some(s) => s,
    };
    proof {
        lemma_find_props(text@, d as int, ';');
        assert(text@[semi as int] == ';');
        assert(semi != d);
    }
    let ids = match parse_ids(text, d + 1, semi) {
        None => {
            return None;
        },
        Some(v) => v,
    };
    let ghost idsv = ids@.map_values(|x: u32| x as int);
    proof {
        lemma_parse_ids_props(text@, d + 1, semi as int);
        assert(idsv.len() == ids@.len());
    }
    let g: u32 = ids[0];
    assert(g as int == idsv[0]);
    if g as usize >= binding_types.len() {
        return None;
    }
    let b: u32 = if ids.len() >= 2 {
        ids[1]
    } else {
        0
    };
    proof {
        if ids@.len() >= 2 {
            assert(b as int == idsv[1]);
        }
    }
    let st = &binding_types[g as usize];
    proof {
        assert(tv[g as int] == binding_types@[g as int].deep_view());
        assert(st@ == tv[g as int]);
        assert(st@.var_types.len() == st.var_types@.len());
        assert(st@.wgsl_types.len() == st.wgsl_types@.len());
    }
    if b as usize >= st.var_types.len() || b as usize >= st.wgsl_types.len() {
        return None;
    }
    let ls = line_start_of(text, d);
    let name = copy_range(text, ls, d);
    proof {
        assert(st.var_types@[b as int]@ == tv[g as int].var_types[b as int]);
        assert(st.wgsl_types@[b as int]@ == tv[g as int].wgsl_types[b as int]);
    }
    let mut repl = str_chars("@group(");
    push_dec(&mut repl, g);
    let mut p1 = str_chars(") @binding(");
    repl.append(&mut p1);
    push_dec(&mut repl, b);
    let mut p2 = str_chars(") var");
    repl.append(&mut p2);
    let mut vt = str_chars(st.var_types[b as usize].as_str());
    repl.append(&mut vt);
    let mut sp1 = str_chars(" ");
    repl.append(&mut sp1);
    let mut nm = name;
    repl.append(&mut nm);
    let mut sp2 = str_chars(" ");
    repl.append(&mut sp2);
    let mut wt = str_chars(st.wgsl_types[b as usize].as_str());
    repl.append(&mut wt);
    let ghost replv = spec_replacement(
        text@.subrange(ls as int, d as int),
        g as int,
        b as int,
        tv[g as int].var_types[b as int],
        tv[g as int].wgsl_types[b as int],
    );
    proof {
        assert(repl@ =~= replv);
    }
    let mut nt = copy_range(text, 0, ls);
    nt.append(&mut repl);
    let np = nt.len();
    let mut suf = copy_range(text, semi, text.len());
    nt.append(&mut suf);
    proof {
        assert(nt@ =~= text@.subrange(0, ls as int) + replv + text@.subrange(
            semi as int,
            text@.len() as int,
        ));
        assert(np as int == ls + replv.len());
        assert(spec_resolve_step(text@, d as int, tv) == Some((nt@, np as int)));
    }
    Some((nt, np))
}

/// Rewrites placeholder declarations in shader source into full binding
/// declarations.
///
/// The shared type-definition block and the host's custom type-definition
/// block are prepended to the source under their header comments; the
/// result is then scanned for markers of the form `$group;` or
/// `$group,binding;` at the end of a declaration line, and each marker
/// whose indices name a slot of `binding_types` is replaced, together with
/// the variable name before it, by
/// `@group(..) @binding(..) var<qualifier> name type`.  Markers that
/// cannot be resolved are left in place, to surface as shader-compile
/// errors downstream; the scan stops after `SUBSTITUTION_CAP`
/// substitutions so malformed input cannot make it run away.  Matching is
/// purely textual: markers inside comments or string-like constructs are
/// rewritten like any others.
pub fn parse_shader(
    shader_source: &str,
    binding_types: &Vec<ShaderType>,
    global_types: &str,
    custom_types: &str,
) -> (r: String)
    ensures
        r@ == spec_preprocess_from(
            spec_assembled(global_types@, custom_types@, shader_source@),
            0,
            SUBSTITUTION_CAP as nat,
            binding_types.deep_view(),
        ),
        (forall|j: int|
            0 <= j < spec_assembled(global_types@, custom_types@, shader_source@).len()
                ==> spec_assembled(global_types@, custom_types@, shader_source@)[j] != '$')
            ==> r@ == spec_assembled(global_types@, custom_types@, shader_source@),
{
    let ghost tv = binding_types.deep_view();
    let mut text = str_chars("//GLOBAL TYPES\n");
    let mut t1 = str_chars(global_types);
    text.append(&mut t1);
    let mut t2 = str_chars("\n//CUSTOM TYPES\n");
    text.append(&mut t2);
    let mut t3 = str_chars(custom_types);
    text.append(&mut t3);
    let mut t4 = str_chars("\n//SHADER DEFINITION\n");
    text.append(&mut t4);
    let mut t5 = str_chars(shader_source);
    text.append(&mut t5);
    let mut t6 = str_chars("\n");
    text.append(&mut t6);
    let ghost orig = spec_assembled(global_types@, custom_types@, shader_source@);
    proof {
        assert(text@ =~= orig);
    }
    let mut pos: usize = 0;
    let mut fuel: u32 = SUBSTITUTION_CAP;
    loop
        invariant_except_break
            pos <= text@.len(),
            tv == binding_types.deep_view(),
            spec_preprocess_from(orig, 0, SUBSTITUTION_CAP as nat, tv) == spec_preprocess_from(
                text@,
                pos as int,
                fuel as nat,
                tv,
            ),
        ensures
            spec_preprocess_from(orig, 0, SUBSTITUTION_CAP as nat, tv) == text@,
        decreases fuel,
    {
        if fuel == 0 {
            break;
        }
        match find_char(&text, pos, '$') {
            None => {
                break;
            },
            Some(d) => {
                proof {
                    lemma_find_props(text@, pos as int, '$');
                }
                fuel = fuel - 1;
                proof {
                    assert(d < text.len());
                }
                match try_resolve(&text, d, binding_types) {
                    None => {
                        pos = d + 1;
                    },
                    Some(step) => {
                        text = step.0;
                        pos = step.1;
                    },
                }
            },
        }
    }
    proof {
        if forall|j: int| 0 <= j < orig.len() ==> orig[j] != '$' {
            lemma_preprocess_no_marker(orig, 0, SUBSTITUTION_CAP as nat, tv);
        }
    }
    chars_string(&text)
}

/// Law: when neither the source nor the two metadata blocks contain a
/// placeholder marker, preprocessing returns the assembled text unchanged:
/// the two blocks are prepended and nothing else happens.
pub proof fn lemma_parse_no_markers(
    globals: Seq<char>,
    customs: Seq<char>,
    source: Seq<char>,
    fuel: nat,
    types: Seq<ShaderTypeView>,
)
    requires
        forall|j: int| 0 <= j < globals.len() ==> globals[j] != '$',
        forall|j: int| 0 <= j < customs.len() ==> customs[j] != '$',
        forall|j: int| 0 <= j < source.len() ==> source[j] != '$',
    ensures
        spec_preprocess_from(spec_assembled(globals, customs, source), 0, fuel, types)
            == spec_assembled(globals, customs, source),
{
    reveal_strlit("//GLOBAL TYPES\n");
    reveal_strlit("\n//CUSTOM TYPES\n");
    reveal_strlit("\n//SHADER DEFINITION\n");
    reveal_strlit("\n");
    let t = spec_assembled(globals, customs, source);
    assert(forall|j: int| 0 <= j < "//GLOBAL TYPES\n"@.len() ==> "//GLOBAL TYPES\n"@[j] != '$');
    assert(forall|j: int|
        0 <= j < "\n//CUSTOM TYPES\n"@.len() ==> "\n//CUSTOM TYPES\n"@[j] != '$');
    assert(forall|j: int|
        0 <= j < "\n//SHADER DEFINITION\n"@.len() ==> "\n//SHADER DEFINITION\n"@[j] != '$');
    assert(forall|j: int| 0 <= j < "\n"@.len() ==> "\n"@[j] != '$');
    assert(forall|j: int| 0 <= j < t.len() ==> t[j] != '$');
    lemma_preprocess_no_marker(t, 0, fuel, types);
}

} // verus!
