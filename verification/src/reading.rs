//! Interpreting raw metric text: a metric source hands the library the full
//! contents of one kernel file, or nothing when the file was unreadable. The
//! library strips the trailing newline and parses the decimal value.

use vstd::prelude::*;

use crate::numbers::{
    digits_val, is_digit, lemma_digits_val_bound, lemma_pow10_increases, lemma_pow10_values,
    parseable_int, pow10, text_int_val,
};

verus! {

/// Why a metric could not be obtained: the source was unreadable, or its text
/// was not a decimal number the library accepts.
#[derive(Debug, Clone, Copy, PartialEq, Eq, Structural)]
pub enum StatusBarError {
    IoError,
    TypeConvertError,
}

/// The metric text with one trailing newline removed, if there is one.
pub open spec fn stripped(s: Seq<char>) -> Seq<char> {
    if s.len() > 0 && s.last() == '\n' {
        s.drop_last()
    } else {
        s
    }
}

/// Takes the contents read from a metric file (`None` when the read failed)
/// and returns the text with its trailing newline removed.
pub fn read_file_content(raw: &Option<String>) -> (r: Result<String, StatusBarError>)
    ensures
        raw is None ==> r == Err::<String, StatusBarError>(StatusBarError::IoError),
        raw matches Some(s) ==> (r matches Ok(t) && t@ == stripped(s@)),
{
    match raw {
        None => Err(StatusBarError::IoError),
        Some(s) => {
            let len = s.as_str().unicode_len();
            if len > 0 && s.as_str().get_char(len - 1) == '\n' {
                let t = s.as_str().substring_char(0, len - 1);
                proof {
                    assert(t@ =~= stripped(s@));
                }
                Ok(String::from_str(t))
            } else {
                Ok(s.clone())
            }
        },
    }
}

/// Parses decimal integer text: an optional minus sign, then one to eighteen
/// digits. Anything else, including text whose value would not fit the
/// machine word, is a conversion error.
#[verifier::loop_isolation(false)]
pub fn parse_int_text(s: &str) -> (r: Result<i64, StatusBarError>)
    ensures
        parseable_int(s@) ==> (r matches Ok(v) && v == text_int_val(s@)),
        !parseable_int(s@) ==> r == Err::<i64, StatusBarError>(StatusBarError::TypeConvertError),
{
    proof {
        lemma_pow10_values();
    }
    let len = s.unicode_len();
    if len == 0 {
        return Err(StatusBarError::TypeConvertError);
    }
    let neg = s.get_char(0) == '-';
    let start: usize = if neg {
        1
    } else {
        0
    };
    if len - start == 0 || len - start > 18 {
        proof {
            if parseable_int(s@) {
                if neg {
                    assert(s@.skip(1).len() == len - 1);
                } else {
                    assert(!is_digit(s@[0]));
                }
            }
        }
        return Err(StatusBarError::TypeConvertError);
    }
    let mut val: u64 = 0;
    let mut i: usize = start;
    while i < len
        invariant
            start <= i <= len,
            forall|j: int| start <= j < i ==> is_digit(#[trigger] s@[j]),
            val == digits_val(s@.subrange(start as int, i as int)),
            val < pow10((i - start) as nat),
        decreases len - i,
    {
        let c = s.get_char(i);
        let cu = c as u32;
        if cu < 48 || cu > 57 {
            proof {
                assert(!is_digit(s@[i as int]));
                if parseable_int(s@) {
                    if neg {
                        assert(is_digit(s@.skip(1)[i - 1]));
                    } else {
                        assert(is_digit(s@[i as int]));
                    }
                }
            }
            return Err(StatusBarError::TypeConvertError);
        }
        let d = (cu - 48) as u64;
        proof {
            lemma_pow10_increases((i - start) as nat, 17);
            assert(val * 10 + d < pow10(18)) by {
                assert(val <= pow10(17) - 1);
                assert(val * 10 <= (pow10(17) - 1) * 10) by (nonlinear_arith)
                    requires
                        val <= pow10(17) - 1,
                ;
            }
            let t_next = s@.subrange(start as int, (i + 1) as int);
            assert(t_next.drop_last() =~= s@.subrange(start as int, i as int));
            assert(t_next.last() == s@[i as int]);
            assert(is_digit(s@[i as int]));
        }
        val = val * 10 + d;
        i = i + 1;
    }
    proof {
        if neg {
            assert(s@.subrange(start as int, len as int) =~= s@.skip(1));
        } else {
            assert(s@.subrange(start as int, len as int) =~= s@);
        }
        assert(parseable_int(s@));
        lemma_digits_val_bound(s@.subrange(start as int, len as int));
        lemma_pow10_increases((len - start) as nat, 18);
    }
    if neg {
        Ok(-(val as i64))
    } else {
        Ok(val as i64)
    }
}

/// What a numeric metric read yields: the value of the file's decimal text
/// once the trailing newline is stripped, or the error that stopped it.
pub open spec fn num_spec(raw: Option<Seq<char>>) -> Result<int, StatusBarError> {
    match raw {
        None => Err(StatusBarError::IoError),
        Some(c) => {
            let t = stripped(c);
            if parseable_int(t) {
                Ok(text_int_val(t))
            } else {
                Err(StatusBarError::TypeConvertError)
            }
        },
    }
}

/// Takes the contents read from a metric file and parses them as a decimal
/// integer after stripping the trailing newline.
pub fn read_file_to_num(raw: &Option<String>) -> (r: Result<i64, StatusBarError>)
    ensures
        match num_spec(raw.deep_view()) {
            Ok(v) => r matches Ok(x) && x == v,
            Err(e) => r == Err::<i64, StatusBarError>(e),
        },
{
    match read_file_content(raw) {
        Err(e) => Err(e),
        Ok(t) => parse_int_text(t.as_str()),
    }
}

} // verus!
