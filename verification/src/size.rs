//! Sizes with a unit, such as `512M` or `16G`.

use vstd::prelude::*;
use vstd::string::*;

use crate::error::answer;
use crate::text::{
    all_digits, count_digits, dec, decimal, digits_len, is_digit, is_white, lemma_dec_value,
    lemma_digits_len, lemma_trimmed_id, lower_char, lowered, parse_u64, same, to_lower, trim,
    trimmed, value,
};

verus! {

pub const KIB: u64 = 1024;

pub const MIB: u64 = 1024 * KIB;

pub const GIB: u64 = 1024 * MIB;

pub const TIB: u64 = 1024 * GIB;

/// A number of bytes that is read and written with a unit.
#[derive(Debug, Clone, Copy, PartialEq, Eq, Structural)]
pub struct ByteSize {
    bytes: u64,
}

/// The number of bytes that a unit in small letters stands for.
pub open spec fn unit(s: Seq<char>) -> Option<u64> {
    if s == "k"@ || s == "kib"@ {
        Some(KIB)
    } else if s == "m"@ || s == "mib"@ {
        Some(MIB)
    } else if s == "g"@ || s == "gib"@ {
        Some(GIB)
    } else if s == "t"@ || s == "tib"@ {
        Some(TIB)
    } else {
        None
    }
}

/// What a text reads as: the bytes of a size, or what is wrong with it.
///
/// A size is a number followed by a unit. White space may stand around it and
/// between the two. The case of the unit does not matter.
pub open spec fn size_of_text(s: Seq<char>) -> Result<nat, Seq<char>> {
    let t = trimmed(s);
    let number = t.take(digits_len(t));
    let suffix = trimmed(t.skip(digits_len(t)));
    if t.len() == 0 {
        Err("empty size string"@)
    } else if suffix.len() == 0 {
        Err("bare number '"@ + t + "' requires a unit suffix (e.g., "@ + t + "M or "@ + t + "G)"@)
    } else if number.len() == 0 {
        Err("missing number before unit suffix '"@ + suffix + "'"@)
    } else if value(number) > u64::MAX {
        Err("invalid number '"@ + number + "'"@)
    } else {
        match unit(lowered(suffix)) {
            None => Err("unknown unit '"@ + suffix + "' — use K, M, G, or T"@),
            Some(m) => if value(number) * m > u64::MAX {
                Err(number + suffix + " overflows maximum representable size"@)
            } else {
                Ok((value(number) * m) as nat)
            },
        }
    }
}

/// How a number of bytes is written: in the largest unit that divides it.
pub open spec fn size_text(bytes: nat) -> Seq<char> {
    if bytes == 0 {
        "0M"@
    } else if bytes % TIB as nat == 0 {
        dec(bytes / TIB as nat) + "T"@
    } else if bytes % GIB as nat == 0 {
        dec(bytes / GIB as nat) + "G"@
    } else if bytes % MIB as nat == 0 {
        dec(bytes / MIB as nat) + "M"@
    } else if bytes % KIB as nat == 0 {
        dec(bytes / KIB as nat) + "K"@
    } else {
        dec(bytes) + "B"@
    }
}

/// The number of whole units in `bytes`, or why there is none that fits.
pub open spec fn whole_units(bytes: u64, unit_bytes: u64, unit_name: Seq<char>) -> Result<
    u32,
    Seq<char>,
> {
    if bytes % unit_bytes != 0 {
        Err(size_text(bytes as nat) + " is not a whole number of "@ + unit_name)
    } else if bytes / unit_bytes > u32::MAX {
        Err(
            size_text(bytes as nat) + " exceeds maximum of "@ + dec(u32::MAX as nat) + " "@
                + unit_name,
        )
    } else {
        Ok((bytes / unit_bytes) as u32)
    }
}

impl ByteSize {
    /// The number of bytes.
    pub closed spec fn spec_bytes(self) -> u64 {
        self.bytes
    }

    /// A size of whole mebibytes.
    pub fn from_mib(mib: u64) -> (r: ByteSize)
        requires
            mib * MIB <= u64::MAX,
        ensures
            r.spec_bytes() == mib * MIB,
    {
        ByteSize { bytes: mib * MIB }
    }

    /// A size of whole gibibytes.
    pub fn from_gib(gib: u64) -> (r: ByteSize)
        requires
            gib * GIB <= u64::MAX,
        ensures
            r.spec_bytes() == gib * GIB,
    {
        ByteSize { bytes: gib * GIB }
    }

    /// A size of so many bytes.
    pub fn from_bytes(bytes: u64) -> (r: ByteSize)
        ensures
            r.spec_bytes() == bytes,
    {
        ByteSize { bytes }
    }

    /// The number of bytes.
    #[verifier::when_used_as_spec(spec_bytes)]
    pub fn bytes(self) -> (r: u64)
        ensures
            r == self.spec_bytes(),
    {
        self.bytes
    }

    /// The size in mebibytes, when it is a whole number of them that fits.
    pub fn to_mib(self) -> (r: Result<u32, String>)
        ensures
            answer(r) == whole_units(self.bytes(), MIB, "MiB"@),
    {
        self.in_units(MIB, "MiB")
    }

    /// The size in gibibytes, when it is a whole number of them that fits.
    pub fn to_gib(self) -> (r: Result<u32, String>)
        ensures
            answer(r) == whole_units(self.bytes(), GIB, "GiB"@),
    {
        self.in_units(GIB, "GiB")
    }

    fn in_units(self, unit_bytes: u64, unit_name: &str) -> (r: Result<u32, String>)
        requires
            unit_bytes > 0,
        ensures
            answer(r) == whole_units(self.bytes(), unit_bytes, unit_name@),
    {
        if self.bytes % unit_bytes != 0 {
            return Err(self.to_string().concat(" is not a whole number of ").concat(unit_name));
        }
        let n: u64 = self.bytes / unit_bytes;
        if n > u32::MAX as u64 {
            let max = decimal(u32::MAX as u64);
            return Err(
                self.to_string().concat(" exceeds maximum of ").concat(max.as_str()).concat(
                    " ",
                ).concat(unit_name),
            );
        }
        Ok(n as u32)
    }

    /// The size in the largest unit that divides it.
    pub fn to_string(&self) -> (r: String)
        ensures
            r@ == size_text(self.bytes() as nat),
    {
        let b: u64 = self.bytes;
        if b == 0 {
            "0M".to_owned()
        } else if b % TIB == 0 {
            decimal(b / TIB).concat("T")
        } else if b % GIB == 0 {
            decimal(b / GIB).concat("G")
        } else if b % MIB == 0 {
            decimal(b / MIB).concat("M")
        } else if b % KIB == 0 {
            decimal(b / KIB).concat("K")
        } else {
            decimal(b).concat("B")
        }
    }

    /// Reads a size.
    pub fn parse(s: &str) -> (r: Result<ByteSize, String>)
        ensures
            match r {
                Ok(size) => size_of_text(s@) == Ok::<nat, Seq<char>>(size.bytes() as nat),
                Err(e) => size_of_text(s@) == Err::<nat, Seq<char>>(e@),
            },
    {
        let t = trim(s);
        if t.is_empty() {
            return Err("empty size string".to_owned());
        }
        let k: usize = count_digits(t);
        let n: usize = t.unicode_len();
        let number = t.substring_char(0, k);
        let rest = t.substring_char(k, n);
        let suffix = trim(rest);
        proof {
            lemma_digits_len(t@);
            assert(t@.subrange(0, k as int) =~= t@.take(k as int));
            assert(t@.subrange(k as int, n as int) =~= t@.skip(k as int));
        }
        if suffix.is_empty() {
            return Err(
                "bare number '".to_owned().concat(t).concat(
                    "' requires a unit suffix (e.g., ",
                ).concat(t).concat("M or ").concat(t).concat("G)"),
            );
        }
        if number.is_empty() {
            return Err(
                "missing number before unit suffix '".to_owned().concat(suffix).concat("'"),
            );
        }
        assert(number@[0] != '+') by {
            assert(is_digit(number@[0]));
        }
        let count: u64 = match parse_u64(number) {
            Some(c) => c,
            None => {
                return Err("invalid number '".to_owned().concat(number).concat("'"));
            },
        };
        let lower = to_lower(suffix);
        let l = lower.as_str();
        let multiplier: u64 = if same(l, "k") || same(l, "kib") {
            KIB
        } else if same(l, "m") || same(l, "mib") {
            MIB
        } else if same(l, "g") || same(l, "gib") {
            GIB
        } else if same(l, "t") || same(l, "tib") {
            TIB
        } else {
            return Err(
                "unknown unit '".to_owned().concat(suffix).concat("' — use K, M, G, or T"),
            );
        };
        match count.checked_mul(multiplier) {
            Some(bytes) => Ok(ByteSize { bytes }),
            None => Err(
                number.to_owned().concat(suffix).concat(
                    " overflows maximum representable size",
                ),
            ),
        }
    }
}

impl std::str::FromStr for ByteSize {
    type Err = String;

    /// Reads a size: see [`size_of_text`].
    fn from_str(s: &str) -> (r: Result<ByteSize, String>)
        ensures
            match r {
                Ok(size) => size_of_text(s@) == Ok::<nat, Seq<char>>(size.bytes() as nat),
                Err(e) => size_of_text(s@) == Err::<nat, Seq<char>>(e@),
            },
    {
        ByteSize::parse(s)
    }
}

/// A number followed by one letter that is no digit: where the number ends.
proof fn lemma_number_and_letter(n: nat, c: char)
    requires
        !is_digit(c),
        !is_white(c),
    ensures
        ({
            let t = dec(n).push(c);
            &&& trimmed(t) == t
            &&& digits_len(t) == t.len() - 1
            &&& t.take(digits_len(t)) == dec(n)
            &&& trimmed(t.skip(digits_len(t))) == seq![c]
            &&& value(dec(n)) == n
            &&& dec(n).len() > 0
        }),
{
    let t = dec(n).push(c);
    lemma_dec_value(n);
    assert(is_digit(dec(n)[0]));
    lemma_trimmed_id(t);
    lemma_digits_len(t);
    let k = digits_len(t);
    if k < t.len() - 1 {
        assert(is_digit(dec(n)[k]));
        assert(t[k] == dec(n)[k]);
    }
    if k == t.len() {
        assert(t.take(k)[t.len() - 1] == c);
    }
    assert(t.take(k) =~= dec(n));
    assert(t.skip(k) =~= seq![c]);
    lemma_trimmed_id(seq![c]);
}

/// Writing a size and reading it back gives the size, for every size that is
/// written with one of the units that are read: a whole number of kibibytes.
pub proof fn law_size_round_trip(bytes: u64)
    requires
        bytes % KIB == 0,
    ensures
        size_of_text(size_text(bytes as nat)) == Ok::<nat, Seq<char>>(bytes as nat),
{
    reveal_strlit("0M");
    reveal_strlit("T");
    reveal_strlit("G");
    reveal_strlit("M");
    reveal_strlit("K");
    reveal_strlit("t");
    reveal_strlit("g");
    reveal_strlit("m");
    reveal_strlit("k");
    reveal_strlit("kib");
    reveal_strlit("mib");
    reveal_strlit("gib");
    reveal_strlit("tib");
    let b = bytes as nat;
    let (n, c, u) = if b == 0 {
        (0nat, 'M', MIB)
    } else if b % TIB as nat == 0 {
        (b / TIB as nat, 'T', TIB)
    } else if b % GIB as nat == 0 {
        (b / GIB as nat, 'G', GIB)
    } else if b % MIB as nat == 0 {
        (b / MIB as nat, 'M', MIB)
    } else {
        (b / KIB as nat, 'K', KIB)
    };
    lemma_number_and_letter(n, c);
    assert(size_text(b) =~= dec(n).push(c));
    assert(lowered(seq![c]) =~= seq![lower_char(c)]);
    assert("t"@ =~= seq!['t']);
    assert("g"@ =~= seq!['g']);
    assert("m"@ =~= seq!['m']);
    assert("k"@ =~= seq!['k']);
    assert(seq!['t'][0] == 't' && seq!['g'][0] == 'g' && seq!['m'][0] == 'm' && seq!['k'][0]
        == 'k');
    assert(seq!['t'].len() == 1 && "kib"@.len() == 3 && "mib"@.len() == 3 && "gib"@.len() == 3);
    assert(lower_char('T') == 't' && lower_char('G') == 'g' && lower_char('M') == 'm' && lower_char(
        'K',
    ) == 'k');
    assert(unit(lowered(seq![c])) == Some(u));
    assert(n * u == b);
}

/// A number alone is no size, whatever it is.
pub proof fn law_size_needs_a_unit(s: Seq<char>)
    requires
        all_digits(s),
    ensures
        size_of_text(s) is Err,
{
    if s.len() > 0 {
        assert(!is_white(s[0]) && !is_white(s.last()));
        lemma_trimmed_id(s);
        lemma_digits_len(s);
        assert(s.skip(s.len() as int) =~= Seq::<char>::empty());
    } else {
        assert(s =~= Seq::<char>::empty());
    }
}

/// The error for a number that stands where a size should, without a unit.
pub fn number_without_unit(n: u64) -> (r: String)
    ensures
        r@ == "bare number "@ + dec(n as nat) + " requires a unit suffix — use \""@ + dec(n as nat)
            + "M\" for MiB or \""@ + dec(n as nat) + "G\" for GiB"@,
{
    let t = decimal(n);
    "bare number ".to_owned().concat(t.as_str()).concat(
        " requires a unit suffix — use \"",
    ).concat(t.as_str()).concat("M\" for MiB or \"").concat(t.as_str()).concat("G\" for GiB")
}

} // verus!
