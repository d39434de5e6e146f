//! Converting a raw environment string into a typed value.
use vstd::prelude::*;

verus! {

/// The target type of a field.
#[derive(Debug, Clone, PartialEq, Eq)]
pub enum TypeTag {
    U8,
    U16,
    U32,
    U64,
    I8,
    I16,
    I32,
    I64,
    /// Any string, taken as it is.
    Text,
    /// A filesystem path; every string names one.
    Path,
    /// A type parsed outside the library, named for diagnostics; the caller
    /// supplies whether its parser accepted the raw string.
    External(String),
}

/// A bound value.
#[derive(Debug, Clone, PartialEq, Eq)]
pub enum Value {
    Integer(i128),
    Text(String),
    Path(String),
    /// The raw string that the outside parser accepted.
    External(String),
}

/// The mathematical content of a `Value`.
pub enum ValueModel {
    Integer(int),
    Text(Seq<char>),
    Path(Seq<char>),
    External(Seq<char>),
}

impl View for Value {
    type V = ValueModel;

    open spec fn view(&self) -> ValueModel {
        match self {
            Value::Integer(n) => ValueModel::Integer(*n as int),
            Value::Text(s) => ValueModel::Text(s@),
            Value::Path(s) => ValueModel::Path(s@),
            Value::External(s) => ValueModel::External(s@),
        }
    }
}

pub open spec fn is_digit(c: char) -> bool {
    '0' <= c && c <= '9'
}

pub open spec fn all_digits(s: Seq<char>) -> bool {
    forall|i: int| 0 <= i < s.len() ==> is_digit(#[trigger] s[i])
}

/// The number that a sequence of decimal digits writes, most significant first.
pub open spec fn digits_value(s: Seq<char>) -> int
    decreases s.len(),
{
    if s.len() == 0 {
        0
    } else {
        digits_value(s.drop_last()) * 10 + (s.last() as int - '0' as int)
    }
}

/// The integer that `s` writes in decimal: an optional `+` (or `-` where
/// `signed`) followed by at least one digit, and nothing else.
pub open spec fn decimal_of(s: Seq<char>, signed: bool) -> Option<int> {
    if s.len() > 1 && s[0] == '+' && all_digits(s.drop_first()) {
        Some(digits_value(s.drop_first()))
    } else if signed && s.len() > 1 && s[0] == '-' && all_digits(s.drop_first()) {
        Some(-digits_value(s.drop_first()))
    } else if s.len() > 0 && all_digits(s) {
        Some(digits_value(s))
    } else {
        None
    }
}

impl TypeTag {
    pub open spec fn is_integer(&self) -> bool {
        !(self is Text || self is Path || self is External)
    }

    pub open spec fn is_signed(&self) -> bool {
        self is I8 || self is I16 || self is I32 || self is I64
    }

    /// Smallest value of an integer type.
    pub open spec fn low(&self) -> int {
        match self {
            TypeTag::I8 => -0x80,
            TypeTag::I16 => -0x8000,
            TypeTag::I32 => -0x8000_0000,
            TypeTag::I64 => -0x8000_0000_0000_0000,
            _ => 0,
        }
    }

    /// Largest value of an integer type.
    pub open spec fn high(&self) -> int {
        match self {
            TypeTag::U8 => 0xff,
            TypeTag::U16 => 0xffff,
            TypeTag::U32 => 0xffff_ffff,
            TypeTag::U64 => 0xffff_ffff_ffff_ffff,
            TypeTag::I8 => 0x7f,
            TypeTag::I16 => 0x7fff,
            TypeTag::I32 => 0x7fff_ffff,
            TypeTag::I64 => 0x7fff_ffff_ffff_ffff,
            _ => 0,
        }
    }

    /// The name of the type, as diagnostics show it.
    pub open spec fn name_view(&self) -> Seq<char> {
        match self {
            TypeTag::U8 => "u8"@,
            TypeTag::U16 => "u16"@,
            TypeTag::U32 => "u32"@,
            TypeTag::U64 => "u64"@,
            TypeTag::I8 => "i8"@,
            TypeTag::I16 => "i16"@,
            TypeTag::I32 => "i32"@,
            TypeTag::I64 => "i64"@,
            TypeTag::Text => "text"@,
            TypeTag::Path => "path"@,
            TypeTag::External(name) => name@,
        }
    }

    /// The name of the type, as diagnostics show it.
    pub fn display_name(&self) -> (r: String)
        ensures
            r@ == self.name_view(),
    {
        match self {
            TypeTag::U8 => String::from_str("u8"),
            TypeTag::U16 => String::from_str("u16"),
            TypeTag::U32 => String::from_str("u32"),
            TypeTag::U64 => String::from_str("u64"),
            TypeTag::I8 => String::from_str("i8"),
            TypeTag::I16 => String::from_str("i16"),
            TypeTag::I32 => String::from_str("i32"),
            TypeTag::I64 => String::from_str("i64"),
            TypeTag::Text => String::from_str("text"),
            TypeTag::Path => String::from_str("path"),
            TypeTag::External(name) => name.clone(),
        }
    }
}

/// The integer of type `tag` that `s` writes, if it writes one in range.
pub open spec fn integer_of(tag: TypeTag, s: Seq<char>) -> Option<int> {
    match decimal_of(s, tag.is_signed()) {
        Some(v) => if tag.low() <= v <= tag.high() {
            Some(v)
        } else {
            None
        },
        None => None,
    }
}

/// What parsing `raw` as `tag` yields; `accepted` is the outside parser's
/// verdict, consulted for external types only.
pub open spec fn parsed(tag: TypeTag, raw: Seq<char>, accepted: bool) -> Option<ValueModel> {
    match tag {
        TypeTag::Text => Some(ValueModel::Text(raw)),
        TypeTag::Path => Some(ValueModel::Path(raw)),
        TypeTag::External(_) => if accepted {
            Some(ValueModel::External(raw))
        } else {
            None
        },
        _ => match integer_of(tag, raw) {
            Some(v) => Some(ValueModel::Integer(v)),
            None => None,
        },
    }
}

proof fn lemma_digits_step(s: Seq<char>, start: int, i: int)
    requires
        0 <= start <= i < s.len(),
    ensures
        digits_value(s.subrange(start, i + 1)) == digits_value(s.subrange(start, i)) * 10 + (
        s[i] as int - '0' as int),
{
    assert(s.subrange(start, i + 1).drop_last() =~= s.subrange(start, i));
}

/// A longer run of digits never writes a smaller number.
proof fn lemma_digits_grow(s: Seq<char>, start: int, i: int)
    requires
        0 <= start <= i <= s.len(),
        all_digits(s.subrange(start, s.len() as int)),
    ensures
        digits_value(s.subrange(start, i)) <= digits_value(s.subrange(start, s.len() as int)),
    decreases s.len() - i,
{
    if i < s.len() {
        lemma_digits_grow(s, start, i + 1);
        lemma_digits_step(s, start, i);
        assert(is_digit(s.subrange(start, s.len() as int)[i - start]));
        assert(digits_value(s.subrange(start, i)) >= 0) by {
            lemma_digits_nonneg(s.subrange(start, i));
        }
    }
}

proof fn lemma_digits_nonneg(s: Seq<char>)
    requires
        all_digits(s),
    ensures
        digits_value(s) >= 0,
    decreases s.len(),
{
    if s.len() > 0 {
        assert(is_digit(s[s.len() - 1]));
        assert(all_digits(s.drop_last())) by {
            assert forall|i: int| 0 <= i < s.drop_last().len() implies is_digit(
                #[trigger] s.drop_last()[i],
            ) by {
                assert(is_digit(s[i]));
            }
        }
        lemma_digits_nonneg(s.drop_last());
    }
}

/// Reads the digits of `s` from `start` to its end, as long as their value
/// stays within `limit`.
fn digits_within(s: &str, start: usize, limit: u128) -> (r: Option<u128>)
    requires
        start <= s@.len(),
        limit <= 0x1_0000_0000_0000_0000,
    ensures
        ({
            let rest = s@.subrange(start as int, s@.len() as int);
            match r {
                Some(v) => rest.len() > 0 && all_digits(rest) && v == digits_value(rest) && v
                    <= limit,
                None => !(rest.len() > 0 && all_digits(rest) && digits_value(rest) <= limit),
            }
        }),
{
    let len = s.unicode_len();
    if start == len {
        return None;
    }
    let ghost rest = s@.subrange(start as int, s@.len() as int);
    let mut acc: u128 = 0;
    let mut i: usize = start;
    while i < len
        invariant
            start <= i <= len,
            len == s@.len(),
            rest == s@.subrange(start as int, s@.len() as int),
            limit <= 0x1_0000_0000_0000_0000,
            all_digits(s@.subrange(start as int, i as int)),
            acc == digits_value(s@.subrange(start as int, i as int)),
            acc <= limit,
        decreases len - i,
    {
        let c = s.get_char(i);
        if !('0' <= c && c <= '9') {
            assert(!is_digit(rest[i - start]));
            return None;
        }
        let d = (c as u32 - '0' as u32) as u128;
        let next = acc * 10 + d;
        proof {
            lemma_digits_step(s@, start as int, i as int);
        }
        if next > limit {
            proof {
                if all_digits(rest) {
                    lemma_digits_grow(s@, start as int, i + 1);
                }
            }
            return None;
        }
        assert(all_digits(s@.subrange(start as int, i + 1))) by {
            assert forall|k: int| 0 <= k < i + 1 - start implies is_digit(
                #[trigger] s@.subrange(start as int, i + 1)[k],
            ) by {
                if k < i - start {
                    assert(s@.subrange(start as int, i + 1)[k] == s@.subrange(
                        start as int,
                        i as int,
                    )[k]);
                }
            }
        }
        acc = next;
        i = i + 1;
    }
    assert(s@.subrange(start as int, i as int) == rest);
    Some(acc)
}

impl TypeTag {
    /// Whether negative values are written with a leading `-`.
    fn signed(&self) -> (r: bool)
        ensures
            r == self.is_signed(),
    {
        matches!(self, TypeTag::I8 | TypeTag::I16 | TypeTag::I32 | TypeTag::I64)
    }

    /// The largest magnitude of a non-negative and of a negative value.
    fn magnitudes(&self) -> (r: (u128, u128))
        requires
            self.is_integer(),
        ensures
            r.0 == self.high(),
            r.1 == -self.low(),
    {
        match self {
            TypeTag::U8 => (0xff, 0),
            TypeTag::U16 => (0xffff, 0),
            TypeTag::U32 => (0xffff_ffff, 0),
            TypeTag::U64 => (0xffff_ffff_ffff_ffff, 0),
            TypeTag::I8 => (0x7f, 0x80),
            TypeTag::I16 => (0x7fff, 0x8000),
            TypeTag::I32 => (0x7fff_ffff, 0x8000_0000),
            _ => (0x7fff_ffff_ffff_ffff, 0x8000_0000_0000_0000),
        }
    }
}

/// Parses `s` as a decimal integer of type `tag`, as the standard library's
/// `from_str` for that type does.
pub fn parse_integer(tag: &TypeTag, s: &str) -> (r: Option<i128>)
    requires
        tag.is_integer(),
    ensures
        match r {
            Some(v) => integer_of(*tag, s@) == Some(v as int),
            None => integer_of(*tag, s@) is None,
        },
{
    let (high, neg) = tag.magnitudes();
    let len = s.unicode_len();
    if len == 0 {
        return None;
    }
    let c = s.get_char(0);
    if c == '+' || (c == '-' && tag.signed()) {
        assert(!is_digit(s@[0]));
        if len == 1 {
            return None;
        }
        assert(s@.drop_first() =~= s@.subrange(1, s@.len() as int));
        if c == '+' {
            match digits_within(s, 1, high) {
                Some(v) => {
                    proof {
                        lemma_digits_nonneg(s@.drop_first());
                    }
                    Some(v as i128)
                },
                None => None,
            }
        } else {
            match digits_within(s, 1, neg) {
                Some(v) => {
                    proof {
                        lemma_digits_nonneg(s@.drop_first());
                    }
                    Some(-(v as i128))
                },
                None => None,
            }
        }
    } else {
        assert(s@.subrange(0, s@.len() as int) =~= s@);
        match digits_within(s, 0, high) {
            Some(v) => {
                proof {
                    lemma_digits_nonneg(s@);
                }
                Some(v as i128)
            },
            None => None,
        }
    }
}

/// Parses `raw` as a value of type `tag`. For an external type, `accepted`
/// is the verdict of that type's own parser on `raw`.
pub fn parse_value(tag: &TypeTag, raw: &str, accepted: bool) -> (r: Option<Value>)
    ensures
        match r {
            Some(v) => parsed(*tag, raw@, accepted) == Some(v@),
            None => parsed(*tag, raw@, accepted) is None,
        },
{
    match tag {
        TypeTag::Text => Some(Value::Text(String::from_str(raw))),
        TypeTag::Path => Some(Value::Path(String::from_str(raw))),
        TypeTag::External(_) => if accepted {
            Some(Value::External(String::from_str(raw)))
        } else {
            None
        },
        _ => match parse_integer(tag, raw) {
            Some(n) => Some(Value::Integer(n)),
            None => None,
        },
    }
}

} // verus!
