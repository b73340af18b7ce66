//! Configuration entries and the tier thresholds read from them.
//!
//! Thresholds live in a key-value settings store under the fixed keys
//! `level_silver`, `level_gold` and `level_diamond`. They are read fresh
//! at every resolution; an absent or unparsable value falls back to the
//! documented default. Parsing follows the standard integer syntax: an
//! optional sign, then one or more decimal digits, rejected on overflow.

use vstd::prelude::*;
use vstd::string::StrSliceExecFns;
use crate::tier::TierThresholds;

verus! {

/// One settings row: a key and its optional text value.
pub struct SettingItem {
    pub id: String,
    pub value: Option<String>,
}

/// A settings row as the specifications see it.
pub struct SettingV {
    pub id: Seq<char>,
    pub value: Option<Seq<char>>,
}

impl View for SettingItem {
    type V = SettingV;

    open spec fn view(&self) -> SettingV {
        SettingV {
            id: self.id@,
            value: match self.value {
                Some(v) => Some(v@),
                None => None,
            },
        }
    }
}

/// A batch of settings rows to write, as the admin console submits it.
pub struct UpdateSettingReq {
    pub settings: Vec<SettingItem>,
}

/// Whether `c` is a decimal digit.
pub open spec fn spec_is_digit(c: char) -> bool {
    48 <= c as int <= 57
}

/// Every character of `s` is a decimal digit.
pub open spec fn spec_all_digits(s: Seq<char>) -> bool {
    forall|i: int| 0 <= i < s.len() ==> spec_is_digit(#[trigger] s[i])
}

/// The value of a digit string, most significant first.
pub open spec fn spec_digits_value(s: Seq<char>) -> int
    decreases s.len(),
{
    if s.len() == 0 {
        0
    } else {
        spec_digits_value(s.drop_last()) * 10 + (s.last() as int - 48)
    }
}

/// The value of a non-empty all-digit string with the given sign, if it
/// fits an i32.
pub open spec fn spec_parse_signed(digits: Seq<char>, negative: bool) -> Option<i32> {
    if digits.len() > 0 && spec_all_digits(digits) {
        let v = spec_digits_value(digits);
        if negative {
            if -v >= -2147483648 {
                Some((-v) as i32)
            } else {
                None
            }
        } else {
            if v <= 2147483647 {
                Some(v as i32)
            } else {
                None
            }
        }
    } else {
        None
    }
}

/// What the standard i32 parser accepts: an optional `+` or `-`, then
/// one or more decimal digits, with the value in range.
pub open spec fn spec_parse_i32(s: Seq<char>) -> Option<i32> {
    if s.len() > 0 && (s[0] == '+' || s[0] == '-') {
        spec_parse_signed(s.subrange(1, s.len() as int), s[0] == '-')
    } else {
        spec_parse_signed(s, false)
    }
}

/// A digit string's value is never negative.
proof fn lemma_digits_value_nonneg(s: Seq<char>)
    requires
        spec_all_digits(s),
    ensures
        spec_digits_value(s) >= 0,
    decreases s.len(),
{
    if s.len() > 0 {
        assert(spec_all_digits(s.drop_last()));
        lemma_digits_value_nonneg(s.drop_last());
    }
}

/// Parses an i32 from text exactly as the standard library does: an
/// optional sign, one or more decimal digits, rejected on overflow.
pub fn parse_i32(s: &str) -> (r: Option<i32>)
    ensures
        r == spec_parse_i32(s@),
{
    let n = s.unicode_len();
    if n == 0 {
        return None;
    }
    let first = s.get_char(0);
    let fu = first as u32;
    let negative = fu == 45;
    let has_sign = fu == 43 || fu == 45;
    let start: usize = if has_sign {
        1
    } else {
        0
    };
    let ghost digits = if has_sign {
        s@.subrange(1, s@.len() as int)
    } else {
        s@
    };
    if n == start {
        return None;
    }
    let mut i = start;
    let mut acc: u64 = 0;
    while i < n
        invariant
            start <= i <= n,
            n == s@.len(),
            start == 0 || start == 1,
            start == 1 ==> s@.len() > 0 && (s@[0] == '+' || s@[0] == '-') && digits
                == s@.subrange(1, s@.len() as int),
            start == 0 ==> s@[0] != '+' && s@[0] != '-' && digits == s@,
            negative == (s@[0] == '-'),
            n > start,
            spec_all_digits(digits.take(i - start)),
            spec_digits_value(digits.take(i - start)) >= 0,
            (spec_digits_value(digits.take(i - start)) <= 2147483649 && acc == spec_digits_value(
                digits.take(i - start),
            )) || (spec_digits_value(digits.take(i - start)) > 2147483649 && acc == 2147483649),
        decreases n - i,
    {
        let c = s.get_char(i);
        let u = c as u32;
        if u < 48 || u > 57 {
            proof {
                assert(digits[i - start] == c);
                assert(!spec_is_digit(c));
                assert(!spec_all_digits(digits));
            }
            return None;
        }
        let d = (u - 48) as u64;
        proof {
            let k = i - start;
            assert(digits.take(k + 1).drop_last() =~= digits.take(k));
            assert(digits.take(k + 1).last() == digits[k]);
            assert(digits[k] == c);
            assert(spec_all_digits(digits.take(k + 1)));
        }
        let next = acc * 10 + d;
        acc = if next > 2147483649 {
            2147483649
        } else {
            next
        };
        i = i + 1;
    }
    proof {
        assert(digits.take(n - start) =~= digits);
    }
    if negative {
        if acc <= 2147483648 {
            let m = acc as i64;
            Some((-m) as i32)
        } else {
            None
        }
    } else {
        if acc <= 2147483647 {
            Some(acc as i32)
        } else {
            None
        }
    }
}

/// Compares two string slices character by character.
pub fn str_eq(a: &str, b: &str) -> (r: bool)
    ensures
        r == (a@ == b@),
{
    let na = a.unicode_len();
    let nb = b.unicode_len();
    if na != nb {
        proof {
            assert(a@.len() != b@.len());
        }
        return false;
    }
    let mut i: usize = 0;
    while i < na
        invariant
            0 <= i <= na,
            na == a@.len(),
            na == b@.len(),
            forall|j: int| 0 <= j < i ==> a@[j] == b@[j],
        decreases na - i,
    {
        let ca = a.get_char(i);
        let cb = b.get_char(i);
        if ca != cb {
            proof {
                assert(a@[i as int] != b@[i as int]);
            }
            return false;
        }
        i = i + 1;
    }
    proof {
        assert(a@ =~= b@);
    }
    true
}

/// How one settings row refines the thresholds: a recognized key with a
/// parsable value replaces that threshold, anything else changes
/// nothing.
pub open spec fn spec_apply_setting(t: TierThresholds, row: SettingV) -> TierThresholds {
    match row.value {
        Some(text) => match spec_parse_i32(text) {
            Some(v) => {
                if row.id == "level_silver"@ {
                    TierThresholds { silver: v as i64, ..t }
                } else if row.id == "level_gold"@ {
                    TierThresholds { gold: v as i64, ..t }
                } else if row.id == "level_diamond"@ {
                    TierThresholds { diamond: v as i64, ..t }
                } else {
                    t
                }
            },
            None => t,
        },
        None => t,
    }
}

/// The thresholds the settings rows yield, starting from the defaults
/// and applying the rows in order.
pub open spec fn spec_thresholds(rows: Seq<SettingV>) -> TierThresholds
    decreases rows.len(),
{
    if rows.len() == 0 {
        TierThresholds { silver: 1000, gold: 5000, diamond: 10000 }
    } else {
        spec_apply_setting(spec_thresholds(rows.drop_last()), rows.last())
    }
}

/// Reads the tier thresholds from settings rows: defaults first, then
/// every recognized, parsable row in order, so a later row for the same
/// key wins.
pub fn thresholds_from_settings(rows: &Vec<SettingItem>) -> (t: TierThresholds)
    ensures
        t == spec_thresholds(rows@.map_values(|r: SettingItem| r@)),
{
    let ghost rv = rows@.map_values(|r: SettingItem| r@);
    let mut t = TierThresholds::defaults();
    let mut i: usize = 0;
    while i < rows.len()
        invariant
            0 <= i <= rows.len(),
            rv == rows@.map_values(|r: SettingItem| r@),
            rv.len() == rows@.len(),
            t == spec_thresholds(rv.take(i as int)),
        decreases rows.len() - i,
    {
        proof {
            assert(rv.take(i + 1).drop_last() =~= rv.take(i as int));
            assert(rv.take(i + 1).last() == rv[i as int]);
        }
        let row = &rows[i];
        match &row.value {
            Some(text) => {
                match parse_i32(text.as_str()) {
                    Some(v) => {
                        if str_eq(row.id.as_str(), "level_silver") {
                            t = TierThresholds { silver: v as i64, ..t };
                        } else if str_eq(row.id.as_str(), "level_gold") {
                            t = TierThresholds { gold: v as i64, ..t };
                        } else if str_eq(row.id.as_str(), "level_diamond") {
                            t = TierThresholds { diamond: v as i64, ..t };
                        }
                    },
                    None => {},
                }
            },
            None => {},
        }
        i = i + 1;
    }
    proof {
        assert(rv.take(rows@.len() as int) =~= rv);
    }
    t
}

} // verus!
