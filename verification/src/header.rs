//! The fixed-size preamble that opens every upload:
//! `<file name>|<declared size in decimal>`, padded with NUL bytes to
//! `HEADER_LEN` bytes.

use vstd::prelude::*;

verus! {

/// Length in bytes of the preamble on the wire.
pub const HEADER_LEN: usize = 256;

/// The byte `|`, which parts the file name from the declared size.
pub const DELIMITER: u8 = 0x7C;

/// What a well-formed preamble says.
#[derive(Debug, PartialEq, Eq)]
pub struct Header {
    /// Name of the file to create, as the bytes that stood before the
    /// delimiter.
    pub file_name: Vec<u8>,
    /// Number of body bytes that the sender announces.
    pub declared_size: u64,
}

/// Mathematical content of a `Header`.
pub ghost struct HeaderSpec {
    pub file_name: Seq<u8>,
    pub declared_size: u64,
}

impl View for Header {
    type V = HeaderSpec;

    open spec fn view(&self) -> HeaderSpec {
        HeaderSpec { file_name: self.file_name@, declared_size: self.declared_size }
    }
}

/// Why a preamble was refused.
#[derive(Clone, Copy, Debug, PartialEq, Eq, Structural)]
pub enum ProtocolError {
    /// The preamble is not `HEADER_LEN` bytes long.
    HeaderLength,
    /// The preamble does not hold exactly one delimiter.
    FieldCount,
    /// The size field is not a decimal number that fits in 64 bits.
    InvalidSize,
    /// A read brought more bytes than were asked for, and so more than
    /// the declared size allows.
    SizeMismatch,
}

/// ASCII white space: tab, line feed, vertical tab, form feed, carriage
/// return and space.
pub open spec fn is_space(b: u8) -> bool {
    b == 9 || b == 10 || b == 11 || b == 12 || b == 13 || b == 32
}

/// The bytes that trimming removes: white space when `space` is set, NUL
/// otherwise.
pub open spec fn is_pad(b: u8, space: bool) -> bool {
    if space {
        is_space(b)
    } else {
        b == 0
    }
}

/// `s` without its leading padding.
pub open spec fn strip_front(s: Seq<u8>, space: bool) -> Seq<u8>
    decreases s.len(),
{
    if s.len() > 0 && is_pad(s[0], space) {
        strip_front(s.skip(1), space)
    } else {
        s
    }
}

/// `s` without its trailing padding.
pub open spec fn strip_back(s: Seq<u8>, space: bool) -> Seq<u8>
    decreases s.len(),
{
    if s.len() > 0 && is_pad(s.last(), space) {
        strip_back(s.drop_last(), space)
    } else {
        s
    }
}

/// `s` without padding at either end.
pub open spec fn trimmed(s: Seq<u8>, space: bool) -> Seq<u8> {
    strip_back(strip_front(s, space), space)
}

/// Number of delimiters in `s`.
pub open spec fn delimiter_count(s: Seq<u8>) -> nat
    decreases s.len(),
{
    if s.len() == 0 {
        0
    } else {
        delimiter_count(s.drop_last()) + if s.last() == DELIMITER {
            1nat
        } else {
            0nat
        }
    }
}

/// Position of the last delimiter in `s`, or -1 where there is none.
pub open spec fn delimiter_at(s: Seq<u8>) -> int
    decreases s.len(),
{
    if s.len() == 0 {
        -1
    } else if s.last() == DELIMITER {
        s.len() - 1
    } else {
        delimiter_at(s.drop_last())
    }
}

pub open spec fn is_digit(b: u8) -> bool {
    48 <= b <= 57
}

pub open spec fn all_digits(s: Seq<u8>) -> bool {
    forall|i: int| 0 <= i < s.len() ==> is_digit(#[trigger] s[i])
}

/// The number that a run of decimal digits writes.
pub open spec fn decimal_value(s: Seq<u8>) -> nat
    decreases s.len(),
{
    if s.len() == 0 {
        0
    } else {
        decimal_value(s.drop_last()) * 10 + (s.last() - 48) as nat
    }
}

/// The digits of a size field: what follows one optional leading `+`.
pub open spec fn digits_of(field: Seq<u8>) -> Seq<u8> {
    if field.len() > 0 && field[0] == 43 {
        field.skip(1)
    } else {
        field
    }
}

/// The size that a field declares: white space around it is ignored, one
/// leading `+` is allowed, and at least one digit must follow. `None` where
/// the field is anything else or the number exceeds 64 bits.
pub open spec fn spec_parse_size(field: Seq<u8>) -> Option<u64> {
    let d = digits_of(trimmed(field, true));
    if d.len() > 0 && all_digits(d) && decimal_value(d) <= u64::MAX {
        Some(decimal_value(d) as u64)
    } else {
        None
    }
}

/// What a preamble means: its NUL padding is trimmed at both ends, exactly
/// one delimiter must remain, the bytes before it name the file and the
/// bytes after it declare the size.
pub open spec fn spec_parse_header(bytes: Seq<u8>) -> Result<HeaderSpec, ProtocolError> {
    if bytes.len() != HEADER_LEN {
        Err(ProtocolError::HeaderLength)
    } else {
        let t = trimmed(bytes, false);
        if delimiter_count(t) != 1 {
            Err(ProtocolError::FieldCount)
        } else {
            let p = delimiter_at(t);
            match spec_parse_size(t.skip(p + 1)) {
                None => Err(ProtocolError::InvalidSize),
                Some(n) => Ok(HeaderSpec { file_name: t.take(p), declared_size: n }),
            }
        }
    }
}

/// A prefix of a digit run never writes a larger number than the run.
pub proof fn lemma_decimal_prefix(s: Seq<u8>, n: int)
    requires
        all_digits(s),
        0 <= n <= s.len(),
    ensures
        decimal_value(s.take(n)) <= decimal_value(s),
    decreases s.len(),
{
    if n == s.len() {
        assert(s.take(n) =~= s);
    } else {
        assert(s.drop_last().take(n) =~= s.take(n));
        lemma_decimal_prefix(s.drop_last(), n);
    }
}

/// `s` holds no delimiter.
pub open spec fn no_delimiter(s: Seq<u8>) -> bool {
    forall|i: int| 0 <= i < s.len() ==> #[trigger] s[i] != DELIMITER
}

/// Trimming brings no delimiter into a run of bytes that has none.
pub proof fn lemma_trim_keeps_no_delimiter(s: Seq<u8>, space: bool)
    requires
        no_delimiter(s),
    ensures
        no_delimiter(strip_front(s, space)),
        no_delimiter(strip_back(s, space)),
        no_delimiter(trimmed(s, space)),
{
    lemma_strip_keeps_no_delimiter(s, space);
    lemma_strip_keeps_no_delimiter(strip_front(s, space), space);
}

proof fn lemma_strip_keeps_no_delimiter(s: Seq<u8>, space: bool)
    requires
        no_delimiter(s),
    ensures
        no_delimiter(strip_front(s, space)),
        no_delimiter(strip_back(s, space)),
    decreases s.len(),
{
    if s.len() > 0 {
        assert forall|i: int| 0 <= i < s.skip(1).len() implies #[trigger] s.skip(1)[i]
            != DELIMITER by {
            assert(s.skip(1)[i] == s[i + 1]);
        }
        assert forall|i: int| 0 <= i < s.drop_last().len() implies #[trigger] s.drop_last()[i]
            != DELIMITER by {
            assert(s.drop_last()[i] == s[i]);
        }
        lemma_strip_keeps_no_delimiter(s.skip(1), space);
        lemma_strip_keeps_no_delimiter(s.drop_last(), space);
    }
}

/// A run of bytes without a delimiter counts none.
pub proof fn lemma_no_delimiter_counts_zero(s: Seq<u8>)
    requires
        no_delimiter(s),
    ensures
        delimiter_count(s) == 0,
    decreases s.len(),
{
    if s.len() > 0 {
        assert forall|i: int| 0 <= i < s.drop_last().len() implies #[trigger] s.drop_last()[i]
            != DELIMITER by {
            assert(s.drop_last()[i] == s[i]);
        }
        lemma_no_delimiter_counts_zero(s.drop_last());
        assert(s.last() == s[s.len() - 1]);
    }
}

/// A preamble of the right length that holds no delimiter is refused for
/// its field count, whatever else it holds.
pub proof fn lemma_missing_delimiter_is_refused(bytes: Seq<u8>)
    requires
        bytes.len() == HEADER_LEN,
        no_delimiter(bytes),
    ensures
        spec_parse_header(bytes) == Err::<HeaderSpec, ProtocolError>(ProtocolError::FieldCount),
{
    lemma_trim_keeps_no_delimiter(bytes, false);
    lemma_no_delimiter_counts_zero(trimmed(bytes, false));
}

/// A number in decimal digits, without leading zeros.
pub open spec fn decimal_bytes(n: nat) -> Seq<u8>
    decreases n,
{
    if n < 10 {
        seq![(48 + n) as u8]
    } else {
        decimal_bytes(n / 10).push((48 + n % 10) as u8)
    }
}

/// `count` NUL bytes.
pub open spec fn padding(count: nat) -> Seq<u8> {
    Seq::new(count, |i: int| 0u8)
}

/// The name, the delimiter and the size of a preamble, without padding.
pub open spec fn header_text(file_name: Seq<u8>, declared_size: u64) -> Seq<u8> {
    file_name + seq![DELIMITER] + decimal_bytes(declared_size as nat)
}

/// Why a header cannot be put on the wire.
#[derive(Clone, Copy, Debug, PartialEq, Eq, Structural)]
pub enum EncodeError {
    /// The file name holds the delimiter.
    Delimiter,
    /// The file name starts with a NUL byte, which the reader would take
    /// for padding.
    LeadingNul,
    /// Name, delimiter and size need more than `HEADER_LEN` bytes.
    TooLong,
}

/// The preamble for a header, or the reason why there is none.
pub open spec fn spec_encode_header(file_name: Seq<u8>, declared_size: u64) -> Result<
    Seq<u8>,
    EncodeError,
> {
    if !no_delimiter(file_name) {
        Err(EncodeError::Delimiter)
    } else if file_name.len() > 0 && file_name[0] == 0 {
        Err(EncodeError::LeadingNul)
    } else if header_text(file_name, declared_size).len() > HEADER_LEN {
        Err(EncodeError::TooLong)
    } else {
        Ok(
            header_text(file_name, declared_size) + padding(
                (HEADER_LEN - header_text(file_name, declared_size).len()) as nat,
            ),
        )
    }
}

/// The digits of a number are digits, start with no sign and no space, and
/// write that number.
pub proof fn lemma_decimal_bytes(n: nat)
    ensures
        decimal_bytes(n).len() > 0,
        all_digits(decimal_bytes(n)),
        decimal_value(decimal_bytes(n)) == n,
    decreases n,
{
    if n < 10 {
        let s = decimal_bytes(n);
        assert(s.drop_last() =~= Seq::<u8>::empty());
        assert(decimal_value(s.drop_last()) == 0);
    } else {
        lemma_decimal_bytes(n / 10);
        let s = decimal_bytes(n);
        assert(s.drop_last() =~= decimal_bytes(n / 10));
    }
}

/// A digit run declares the number it writes.
pub proof fn lemma_digits_parse(d: Seq<u8>)
    requires
        d.len() > 0,
        all_digits(d),
        decimal_value(d) <= u64::MAX,
    ensures
        spec_parse_size(d) == Some(decimal_value(d) as u64),
{
    assert(is_digit(d[0]));
    assert(is_digit(d.last()));
    assert(strip_front(d, true) == d);
    assert(strip_back(d, true) == d);
}

proof fn lemma_trailing_padding(core: Seq<u8>, count: nat)
    requires
        core.len() > 0,
        core.last() != 0,
    ensures
        strip_back(core + padding(count), false) == core,
    decreases count,
{
    let s = core + padding(count);
    if count == 0 {
        assert(s =~= core);
    } else {
        assert(s.last() == 0);
        assert(s.drop_last() =~= core + padding((count - 1) as nat));
        lemma_trailing_padding(core, (count - 1) as nat);
    }
}

proof fn lemma_delimiter_before_digits(name: Seq<u8>, d: Seq<u8>)
    requires
        no_delimiter(name),
        all_digits(d),
    ensures
        delimiter_count(name + seq![DELIMITER] + d) == 1,
        delimiter_at(name + seq![DELIMITER] + d) == name.len(),
    decreases d.len(),
{
    let s = name + seq![DELIMITER] + d;
    if d.len() == 0 {
        assert(s.drop_last() =~= name);
        assert(s.last() == DELIMITER);
        lemma_no_delimiter_counts_zero(name);
    } else {
        assert(s.drop_last() =~= name + seq![DELIMITER] + d.drop_last());
        assert(s.last() == d.last());
        assert(is_digit(d.last()));
        lemma_delimiter_before_digits(name, d.drop_last());
    }
}

/// Round trip of the wire format: what was put on the wire for a header is
/// read back as that header.
pub proof fn lemma_header_round_trip(file_name: Seq<u8>, declared_size: u64)
    requires
        spec_encode_header(file_name, declared_size) is Ok,
    ensures
        spec_parse_header(spec_encode_header(file_name, declared_size)->Ok_0) == Ok::<
            HeaderSpec,
            ProtocolError,
        >(HeaderSpec { file_name, declared_size }),
{
    let d = decimal_bytes(declared_size as nat);
    let core = header_text(file_name, declared_size);
    let wire = spec_encode_header(file_name, declared_size)->Ok_0;
    lemma_decimal_bytes(declared_size as nat);
    assert(is_digit(d.last()));
    assert(core.last() == d.last());
    assert(wire[0] == core[0]);
    assert(core[0] != 0) by {
        if file_name.len() > 0 {
            assert(core[0] == file_name[0]);
        } else {
            assert(core[0] == DELIMITER);
        }
    }
    assert(strip_front(wire, false) == wire);
    lemma_trailing_padding(core, (HEADER_LEN - core.len()) as nat);
    assert(trimmed(wire, false) == core);
    lemma_delimiter_before_digits(file_name, d);
    assert(core.skip(file_name.len() as int + 1) =~= d);
    assert(core.take(file_name.len() as int) =~= file_name);
    lemma_digits_parse(d);
}

/// Padding byte test.
pub fn is_pad_byte(b: u8, space: bool) -> (r: bool)
    ensures
        r == is_pad(b, space),
{
    if space {
        b == 9 || b == 10 || b == 11 || b == 12 || b == 13 || b == 32
    } else {
        b == 0
    }
}

/// Bounds of `bytes[lo..hi]` without its padding at either end.
pub fn trim_bounds(bytes: &[u8], lo: usize, hi: usize, space: bool) -> (r: (usize, usize))
    requires
        lo <= hi <= bytes@.len(),
    ensures
        lo <= r.0 <= r.1 <= hi,
        bytes@.subrange(r.0 as int, r.1 as int) == trimmed(
            bytes@.subrange(lo as int, hi as int),
            space,
        ),
        hi - r.0 == strip_front(bytes@.subrange(lo as int, hi as int), space).len(),
{
    let mut a: usize = lo;
    while a < hi && is_pad_byte(bytes[a], space)
        invariant
            lo <= a <= hi <= bytes@.len(),
            strip_front(bytes@.subrange(lo as int, hi as int), space) == strip_front(
                bytes@.subrange(a as int, hi as int),
                space,
            ),
        decreases hi - a,
    {
        assert(bytes@.subrange(a as int, hi as int).skip(1) =~= bytes@.subrange(
            a + 1,
            hi as int,
        ));
        a = a + 1;
    }
    let mut b: usize = hi;
    while b > a && is_pad_byte(bytes[b - 1], space)
        invariant
            a <= b <= hi <= bytes@.len(),
            strip_back(bytes@.subrange(a as int, hi as int), space) == strip_back(
                bytes@.subrange(a as int, b as int),
                space,
            ),
        decreases b - a,
    {
        assert(bytes@.subrange(a as int, b as int).drop_last() =~= bytes@.subrange(
            a as int,
            b - 1,
        ));
        b = b - 1;
    }
    (a, b)
}

/// A copy of `bytes[lo..hi]`.
pub fn copy_range(bytes: &[u8], lo: usize, hi: usize) -> (out: Vec<u8>)
    requires
        lo <= hi <= bytes@.len(),
    ensures
        out@ == bytes@.subrange(lo as int, hi as int),
{
    let mut out: Vec<u8> = Vec::new();
    let mut i: usize = lo;
    while i < hi
        invariant
            lo <= i <= hi <= bytes@.len(),
            out@ == bytes@.subrange(lo as int, i as int),
        decreases hi - i,
    {
        out.push(bytes[i]);
        assert(bytes@.subrange(lo as int, i as int).push(bytes@[i as int]) =~= bytes@.subrange(
            lo as int,
            i + 1,
        ));
        i = i + 1;
    }
    out
}

/// The size declared by the field `bytes[lo..hi]`.
pub fn parse_size(bytes: &[u8], lo: usize, hi: usize) -> (r: Option<u64>)
    requires
        lo <= hi <= bytes@.len(),
    ensures
        r == spec_parse_size(bytes@.subrange(lo as int, hi as int)),
{
    let (a, b) = trim_bounds(bytes, lo, hi, true);
    let ghost field = bytes@.subrange(a as int, b as int);
    let start: usize = if a < b && bytes[a] == 43 {
        a + 1
    } else {
        a
    };
    let ghost d = bytes@.subrange(start as int, b as int);
    assert(d =~= digits_of(field));
    if start == b {
        return None;
    }
    let mut acc: u64 = 0;
    let mut i: usize = start;
    while i < b
        invariant
            lo <= hi <= bytes@.len(),
            start <= i <= b <= bytes@.len(),
            start < b,
            d == bytes@.subrange(start as int, b as int),
            d == digits_of(trimmed(bytes@.subrange(lo as int, hi as int), true)),
            all_digits(d.take(i - start)),
            acc == decimal_value(d.take(i - start)),
        decreases b - i,
    {
        let c: u8 = bytes[i];
        if c < 48 || c > 57 {
            assert(!is_digit(d[i - start]));
            return None;
        }
        let digit: u64 = (c - 48) as u64;
        assert(d.take(i + 1 - start).drop_last() =~= d.take(i - start));
        assert(d.take(i + 1 - start).last() == c);
        assert(decimal_value(d.take(i + 1 - start)) == acc * 10 + digit);
        let next = match acc.checked_mul(10) {
            Some(m) => m.checked_add(digit),
            None => None,
        };
        match next {
            Some(v) => {
                acc = v;
            },
            None => {
                proof {
                    if all_digits(d) {
                        lemma_decimal_prefix(d, i + 1 - start);
                    }
                }
                return None;
            },
        }
        i = i + 1;
    }
    assert(d.take(b - start) =~= d);
    Some(acc)
}

/// Reads a preamble.
///
/// Succeeds exactly on the preambles that `spec_parse_header` accepts, with
/// the header it describes; otherwise returns the error it names.
pub fn parse_header(bytes: &[u8]) -> (r: Result<Header, ProtocolError>)
    ensures
        match r {
            Ok(h) => spec_parse_header(bytes@) == Ok::<HeaderSpec, ProtocolError>(h@),
            Err(e) => spec_parse_header(bytes@) == Err::<HeaderSpec, ProtocolError>(e),
        },
{
    if bytes.len() != HEADER_LEN {
        return Err(ProtocolError::HeaderLength);
    }
    let (a, b) = trim_bounds(bytes, 0, bytes.len(), false);
    assert(bytes@.subrange(0, bytes@.len() as int) =~= bytes@);
    let ghost t = bytes@.subrange(a as int, b as int);
    let mut count: usize = 0;
    let mut pos: usize = a;
    let mut i: usize = a;
    assert(t.take(0) =~= Seq::<u8>::empty());
    while i < b
        invariant
            a <= i <= b <= bytes@.len(),
            t == bytes@.subrange(a as int, b as int),
            count == delimiter_count(t.take(i - a)),
            count <= i - a,
            count == 0 ==> delimiter_at(t.take(i - a)) == -1,
            count > 0 ==> a <= pos < i && delimiter_at(t.take(i - a)) == pos - a,
        decreases b - i,
    {
        assert(t.take(i + 1 - a).drop_last() =~= t.take(i - a));
        assert(t.take(i + 1 - a).last() == bytes@[i as int]);
        if bytes[i] == DELIMITER {
            count = count + 1;
            pos = i;
        }
        i = i + 1;
    }
    assert(t.take(b - a) =~= t);
    if count != 1 {
        return Err(ProtocolError::FieldCount);
    }
    assert(t.skip(pos - a + 1) =~= bytes@.subrange(pos + 1, b as int));
    assert(t.take(pos - a) =~= bytes@.subrange(a as int, pos as int));
    match parse_size(bytes, pos + 1, b) {
        None => Err(ProtocolError::InvalidSize),
        Some(declared_size) => {
            let file_name = copy_range(bytes, a, pos);
            Ok(Header { file_name, declared_size })
        },
    }
}

/// Appends `n` in decimal digits to `out`.
pub fn push_decimal_bytes(out: &mut Vec<u8>, n: u64)
    ensures
        final(out)@ == old(out)@ + decimal_bytes(n as nat),
    decreases n,
{
    if n >= 10 {
        push_decimal_bytes(out, n / 10);
    }
    out.push(48 + (n % 10) as u8);
    assert(final(out)@ =~= old(out)@ + decimal_bytes(n as nat));
}

/// Writes the preamble for a header.
///
/// Succeeds exactly on the headers that `spec_encode_header` accepts, with
/// the bytes it describes; otherwise returns the error it names.
pub fn encode_header(file_name: &[u8], declared_size: u64) -> (r: Result<Vec<u8>, EncodeError>)
    ensures
        match r {
            Ok(wire) => spec_encode_header(file_name@, declared_size) == Ok::<
                Seq<u8>,
                EncodeError,
            >(wire@),
            Err(e) => spec_encode_header(file_name@, declared_size) == Err::<
                Seq<u8>,
                EncodeError,
            >(e),
        },
{
    let mut i: usize = 0;
    while i < file_name.len()
        invariant
            i <= file_name@.len(),
            no_delimiter(file_name@.take(i as int)),
        decreases file_name@.len() - i,
    {
        if file_name[i] == DELIMITER {
            return Err(EncodeError::Delimiter);
        }
        assert forall|j: int| 0 <= j < i + 1 implies #[trigger] file_name@.take(i + 1)[j]
            != DELIMITER by {
            if j < i {
                assert(file_name@.take(i as int)[j] != DELIMITER);
            }
        }
        i = i + 1;
    }
    assert(file_name@.take(file_name@.len() as int) =~= file_name@);
    if file_name.len() > 0 && file_name[0] == 0 {
        return Err(EncodeError::LeadingNul);
    }
    proof {
        lemma_decimal_bytes(declared_size as nat);
    }
    if file_name.len() >= HEADER_LEN {
        return Err(EncodeError::TooLong);
    }
    let mut wire = copy_range(file_name, 0, file_name.len());
    assert(wire@ =~= file_name@);
    wire.push(DELIMITER);
    push_decimal_bytes(&mut wire, declared_size);
    assert(wire@ =~= header_text(file_name@, declared_size));
    if wire.len() > HEADER_LEN {
        return Err(EncodeError::TooLong);
    }
    let ghost text = wire@;
    while wire.len() < HEADER_LEN
        invariant
            text.len() <= wire@.len() <= HEADER_LEN,
            wire@ =~= text + padding((wire@.len() - text.len()) as nat),
        decreases HEADER_LEN - wire@.len(),
    {
        wire.push(0);
    }
    Ok(wire)
}

} // verus!
