//! The names of modulation sources and destinations: how they are shown and
//! how a name that was typed is read.
use crate::mod_matrix::{
    EnvParam, LfoParam, LowPass, LowPassParam, ModMatrixDest, ModMatrixSrc, OscParam,
};
use vstd::prelude::*;
use vstd::string::{StringExecFns, StringSliceAdditionalSpecFns};

verus! {

/// The character of the digit `d`.
pub open spec fn digit(d: int) -> char {
    ((48 + d) as u8) as char
}

/// The decimal digits of `n`.
pub open spec fn decimal(n: nat) -> Seq<char>
    decreases n,
{
    if n < 10 {
        seq![digit(n as int)]
    } else {
        decimal(n / 10).push(digit((n % 10) as int))
    }
}

fn digit_str(d: u128) -> (text: &'static str)
    requires
        d < 10,
    ensures
        text@ == seq![digit(d as int)],
{
    proof {
        reveal_strlit("0");
        reveal_strlit("1");
        reveal_strlit("2");
        reveal_strlit("3");
        reveal_strlit("4");
        reveal_strlit("5");
        reveal_strlit("6");
        reveal_strlit("7");
        reveal_strlit("8");
        reveal_strlit("9");
    }
    let text = if d == 0 {
        "0"
    } else if d == 1 {
        "1"
    } else if d == 2 {
        "2"
    } else if d == 3 {
        "3"
    } else if d == 4 {
        "4"
    } else if d == 5 {
        "5"
    } else if d == 6 {
        "6"
    } else if d == 7 {
        "7"
    } else if d == 8 {
        "8"
    } else {
        "9"
    };
    assert(text@ =~= seq![digit(d as int)]);
    text
}

/// Writes the decimal digits of `n` at the end of `out`.
pub fn push_decimal(out: &mut String, n: u128)
    ensures
        final(out)@ == old(out)@ + decimal(n as nat),
    decreases n,
{
    if n >= 10 {
        push_decimal(out, n / 10);
    }
    out.append(digit_str(n % 10));
    assert(out@ =~= old(out)@ + decimal(n as nat));
}

/// How a source is shown.
pub open spec fn src_text(src: ModMatrixSrc) -> Seq<char> {
    match src {
        ModMatrixSrc::Gate => "Gate"@,
        ModMatrixSrc::Macro1 => "Macro-1"@,
        ModMatrixSrc::Macro2 => "Macro-2"@,
        ModMatrixSrc::Macro3 => "Macro-3"@,
        ModMatrixSrc::Macro4 => "Macro-4"@,
        ModMatrixSrc::Velocity => "Vel"@,
        ModMatrixSrc::ModWheel => "Mod-Whl"@,
        ModMatrixSrc::PitchWheel => "Pitch-Whl"@,
        ModMatrixSrc::Env(n) => "Env-"@ + decimal(n as nat),
        ModMatrixSrc::Lfo(n) => "LFO-"@ + decimal(n as nat),
    }
}

/// The name under which a source is shown.
pub fn display_src(src: ModMatrixSrc) -> (text: String)
    ensures
        text@ == src_text(src),
{
    match src {
        ModMatrixSrc::Gate => "Gate".to_string(),
        ModMatrixSrc::Macro1 => "Macro-1".to_string(),
        ModMatrixSrc::Macro2 => "Macro-2".to_string(),
        ModMatrixSrc::Macro3 => "Macro-3".to_string(),
        ModMatrixSrc::Macro4 => "Macro-4".to_string(),
        ModMatrixSrc::Velocity => "Vel".to_string(),
        ModMatrixSrc::ModWheel => "Mod-Whl".to_string(),
        ModMatrixSrc::PitchWheel => "Pitch-Whl".to_string(),
        ModMatrixSrc::Env(n) => {
            let mut text = "Env-".to_string();
            push_decimal(&mut text, n as u128);
            text
        },
        ModMatrixSrc::Lfo(n) => {
            let mut text = "LFO-".to_string();
            push_decimal(&mut text, n as u128);
            text
        },
    }
}

/// How a parameter of a low-pass filter is shown.
pub open spec fn lp_param_text(param: LowPassParam) -> Seq<char> {
    match param {
        LowPassParam::Cutoff => "CutOff"@,
        LowPassParam::Res => "Res"@,
        LowPassParam::Mix => "Mix"@,
    }
}

/// How a parameter of an envelope is shown.
pub open spec fn env_param_text(param: EnvParam) -> Seq<char> {
    match param {
        EnvParam::Atk => "Atk"@,
        EnvParam::Dcy => "Dcy"@,
        EnvParam::Sus => "Sus"@,
        EnvParam::Rel => "Rel"@,
    }
}

/// How a destination is shown.  Oscillators are counted from one, envelopes,
/// LFOs and matrix entries from zero.
pub open spec fn dest_text(dest: ModMatrixDest) -> Seq<char> {
    match dest {
        ModMatrixDest::SynthVolume => "Vol."@,
        ModMatrixDest::ModMatrixEntryModAmt(id) => "Mod-Entry "@ + decimal(id as nat),
        ModMatrixDest::Osc { osc, param: OscParam::Level } => "OSC "@ + decimal((osc + 1) as nat)
            + " Vol."@,
        ModMatrixDest::Osc { osc, param: OscParam::Tune } => "OSC "@ + decimal((osc + 1) as nat)
            + " Tune"@,
        ModMatrixDest::LowPass { low_pass: LowPass::LP1, param } => "LowP 1 "@ + lp_param_text(
            param,
        ),
        ModMatrixDest::LowPass { low_pass: LowPass::LP2, param } => "LowP 2 "@ + lp_param_text(
            param,
        ),
        ModMatrixDest::Env { env, param } => "Env "@ + decimal(env as nat) + " "@ + env_param_text(
            param,
        ),
        ModMatrixDest::Lfo { lfo, param: LfoParam::Speed } => "LFO "@ + decimal(lfo as nat)
            + " Speed"@,
    }
}

/// The name under which a destination is shown.
pub fn display_dest(dest: ModMatrixDest) -> (text: String)
    ensures
        text@ == dest_text(dest),
{
    match dest {
        ModMatrixDest::SynthVolume => "Vol.".to_string(),
        ModMatrixDest::ModMatrixEntryModAmt(id) => {
            let mut text = "Mod-Entry ".to_string();
            push_decimal(&mut text, id as u128);
            text
        },
        ModMatrixDest::Osc { osc, param } => {
            let mut text = "OSC ".to_string();
            push_decimal(&mut text, osc as u128 + 1);
            match param {
                OscParam::Level => text.append(" Vol."),
                OscParam::Tune => text.append(" Tune"),
            }
            text
        },
        ModMatrixDest::LowPass { low_pass, param } => {
            let mut text = match low_pass {
                LowPass::LP1 => "LowP 1 ".to_string(),
                LowPass::LP2 => "LowP 2 ".to_string(),
            };
            match param {
                LowPassParam::Cutoff => text.append("CutOff"),
                LowPassParam::Res => text.append("Res"),
                LowPassParam::Mix => text.append("Mix"),
            }
            text
        },
        ModMatrixDest::Env { env, param } => {
            let mut text = "Env ".to_string();
            push_decimal(&mut text, env as u128);
            text.append(" ");
            match param {
                EnvParam::Atk => text.append("Atk"),
                EnvParam::Dcy => text.append("Dcy"),
                EnvParam::Sus => text.append("Sus"),
                EnvParam::Rel => text.append("Rel"),
            }
            text
        },
        ModMatrixDest::Lfo { lfo, param } => {
            let mut text = "LFO ".to_string();
            push_decimal(&mut text, lfo as u128);
            match param {
                LfoParam::Speed => text.append(" Speed"),
            }
            text
        },
    }
}

/// Why a name stands for no source.
#[derive(Clone, Copy, Debug, PartialEq, Eq, Structural)]
pub enum SrcError {
    /// The name is none of the known names.
    Unknown,
    /// What follows `env-` or `lfo-` is no number that fits.
    Number,
    /// Envelopes and LFOs are counted from one.
    Zero,
}

/// `text` begins with `prefix`.
pub open spec fn starts_with(text: Seq<u8>, prefix: Seq<u8>) -> bool {
    prefix.len() <= text.len() && text.subrange(0, prefix.len() as int) == prefix
}

/// Where the field that begins at `from` ends: at the next hyphen, or at
/// the end of the text.
pub open spec fn field_end(text: Seq<u8>, from: int) -> int
    decreases text.len() - from,
{
    if from >= text.len() {
        text.len() as int
    } else if text[from] == '-' as u8 {
        from
    } else {
        field_end(text, from + 1)
    }
}

pub open spec fn is_digit(b: u8) -> bool {
    '0' as u8 <= b <= '9' as u8
}

pub open spec fn all_digits(digits: Seq<u8>) -> bool {
    forall|i: int| 0 <= i < digits.len() ==> is_digit(#[trigger] digits[i])
}

/// The number that decimal digits stand for.
pub open spec fn digits_value(digits: Seq<u8>) -> nat
    decreases digits.len(),
{
    if digits.len() == 0 {
        0
    } else {
        (digits_value(digits.drop_last()) * 10 + (digits.last() - '0' as u8)) as nat
    }
}

/// The number that a field stands for: decimal digits, at least one, after
/// an optional plus sign, that give a number of machine size.
pub open spec fn field_number(field: Seq<u8>) -> Option<nat> {
    let digits = if field.len() > 0 && field[0] == '+' as u8 {
        field.skip(1)
    } else {
        field
    };
    if digits.len() > 0 && all_digits(digits) && digits_value(digits) <= usize::MAX {
        Some(digits_value(digits))
    } else {
        None
    }
}

/// The number of an envelope or LFO that is named from one, counted from
/// zero.  The number is the field between the hyphen that ends the prefix
/// and the next hyphen.
pub open spec fn numbered(text: Seq<u8>, prefix: Seq<u8>) -> Result<usize, SrcError> {
    let from = prefix.len() as int;
    match field_number(text.subrange(from, field_end(text, from))) {
        Some(n) => if n >= 1 {
            Ok((n - 1) as usize)
        } else {
            Err(SrcError::Zero)
        },
        None => Err(SrcError::Number),
    }
}

/// The source that a name in lower case stands for.
pub open spec fn src_of(text: Seq<u8>) -> Result<ModMatrixSrc, SrcError> {
    if starts_with(text, "env-".spec_bytes()) {
        match numbered(text, "env-".spec_bytes()) {
            Ok(n) => Ok(ModMatrixSrc::Env(n)),
            Err(e) => Err(e),
        }
    } else if starts_with(text, "lfo-".spec_bytes()) {
        match numbered(text, "lfo-".spec_bytes()) {
            Ok(n) => Ok(ModMatrixSrc::Lfo(n)),
            Err(e) => Err(e),
        }
    } else if text == "velocity".spec_bytes() || text == "vel".spec_bytes() {
        Ok(ModMatrixSrc::Velocity)
    } else if text == "gate".spec_bytes() {
        Ok(ModMatrixSrc::Gate)
    } else if text == "mod-wheel".spec_bytes() || text == "mod-whl".spec_bytes() {
        Ok(ModMatrixSrc::ModWheel)
    } else if text == "pitch-wheel".spec_bytes() || text == "pitch-whl".spec_bytes() {
        Ok(ModMatrixSrc::PitchWheel)
    } else if text == "macro-1".spec_bytes() || text == "macro1".spec_bytes() || text
        == "m-1".spec_bytes() || text == "m1".spec_bytes() {
        Ok(ModMatrixSrc::Macro1)
    } else if text == "macro-2".spec_bytes() || text == "macro2".spec_bytes() || text
        == "m-2".spec_bytes() || text == "m2".spec_bytes() {
        Ok(ModMatrixSrc::Macro2)
    } else if text == "macro-3".spec_bytes() || text == "macro3".spec_bytes() || text
        == "m-3".spec_bytes() || text == "m3".spec_bytes() {
        Ok(ModMatrixSrc::Macro3)
    } else if text == "macro-4".spec_bytes() || text == "macro4".spec_bytes() || text
        == "m-4".spec_bytes() || text == "m4".spec_bytes() {
        Ok(ModMatrixSrc::Macro4)
    } else {
        Err(SrcError::Unknown)
    }
}

/// Whether `text` is the bytes of `word`.
fn is_word(text: &[u8], word: &str) -> (same: bool)
    ensures
        same == (text@ == word.spec_bytes()),
{
    let other = word.as_bytes();
    if text.len() != other.len() {
        return false;
    }
    let mut i: usize = 0;
    while i < text.len()
        invariant
            i <= text@.len(),
            text@.len() == other@.len(),
            other@ == word.spec_bytes(),
            forall|j: int| 0 <= j < i ==> text@[j] == other@[j],
        decreases text@.len() - i,
    {
        if text[i] != other[i] {
            assert(text@[i as int] != other@[i as int]);
            return false;
        }
        i = i + 1;
    }
    assert(text@ =~= other@);
    true
}

/// Whether `text` begins with the bytes of `word`.
fn begins_with(text: &[u8], word: &str) -> (yes: bool)
    ensures
        yes == starts_with(text@, word.spec_bytes()),
{
    let prefix = word.as_bytes();
    if text.len() < prefix.len() {
        return false;
    }
    let mut i: usize = 0;
    while i < prefix.len()
        invariant
            i <= prefix@.len(),
            prefix@.len() <= text@.len(),
            prefix@ == word.spec_bytes(),
            forall|j: int| 0 <= j < i ==> text@[j] == prefix@[j],
        decreases prefix@.len() - i,
    {
        if text[i] != prefix[i] {
            assert(text@.subrange(0, prefix@.len() as int)[i as int] == text@[i as int]);
            assert(text@[i as int] != prefix@[i as int]);
            return false;
        }
        i = i + 1;
    }
    assert(text@.subrange(0, prefix@.len() as int) =~= prefix@);
    true
}

/// Digits that go on count for at least as much.
proof fn lemma_digits_value_grows(digits: Seq<u8>, k: int)
    requires
        0 <= k <= digits.len(),
        all_digits(digits),
    ensures
        digits_value(digits.take(k)) <= digits_value(digits),
    decreases digits.len() - k,
{
    if k < digits.len() {
        lemma_digits_value_grows(digits, k + 1);
        assert(digits.take(k + 1).drop_last() =~= digits.take(k));
        assert(is_digit(digits[k]));
        assert(digits.take(k + 1).last() == digits[k]);
        assert(digits_value(digits.take(k)) <= digits_value(digits.take(k + 1))) by {
            let v = digits_value(digits.take(k));
            assert(v <= v * 10 + 0) by (nonlinear_arith);
        }
    } else {
        assert(digits.take(k) =~= digits);
    }
}

/// Reads the number in the bytes from `from` up to `to`.
fn read_number(text: &[u8], from: usize, to: usize) -> (number: Option<usize>)
    requires
        from <= to <= text@.len(),
    ensures
        match field_number(text@.subrange(from as int, to as int)) {
            Some(n) => n <= usize::MAX && number == Some(n as usize),
            None => number is None,
        },
{
    let ghost field = text@.subrange(from as int, to as int);
    let mut i: usize = from;
    if i < to && text[i] == '+' as u8 {
        i = i + 1;
    }
    let start = i;
    let ghost digits = text@.subrange(start as int, to as int);
    assert(digits =~= if field.len() > 0 && field[0] == '+' as u8 {
        field.skip(1)
    } else {
        field
    });
    if start == to {
        return None;
    }
    let mut value: usize = 0;
    while i < to
        invariant
            from <= start <= i <= to,
            start < to,
            to <= text@.len(),
            field == text@.subrange(from as int, to as int),
            digits == text@.subrange(start as int, to as int),
            digits == if field.len() > 0 && field[0] == '+' as u8 {
                field.skip(1)
            } else {
                field
            },
            all_digits(digits.take(i - start)),
            value == digits_value(digits.take(i - start)),
        decreases to - i,
    {
        let b = text[i];
        let ghost more = digits.take(i - start + 1);
        proof {
            assert(more.drop_last() =~= digits.take(i - start));
            assert(more.last() == b);
            assert(digits[i - start] == b);
            if all_digits(digits) {
                lemma_digits_value_grows(digits, i - start + 1);
            }
        }
        if b < '0' as u8 || b > '9' as u8 {
            assert(!is_digit(digits[i - start]));
            assert(!all_digits(digits));
            return None;
        }
        let d: usize = (b - '0' as u8) as usize;
        let next = match value.checked_mul(10) {
            Some(tens) => tens.checked_add(d),
            None => None,
        };
        match next {
            Some(v) => {
                value = v;
            },
            None => {
                assert(digits_value(more) > usize::MAX);
                return None;
            },
        }
        assert forall|j: int| 0 <= j < more.len() implies is_digit(#[trigger] more[j]) by {
            if j < more.len() - 1 {
                assert(digits.take(i - start)[j] == more[j]);
            }
        }
        i = i + 1;
    }
    assert(digits.take(to - start) =~= digits);
    Some(value)
}

/// Finds where the field that begins at `from` ends.
fn find_field_end(text: &[u8], from: usize) -> (end: usize)
    requires
        from <= text@.len(),
    ensures
        end == field_end(text@, from as int),
        from <= end <= text@.len(),
{
    let mut i: usize = from;
    while i < text.len() && text[i] != '-' as u8
        invariant
            from <= i <= text@.len(),
            field_end(text@, from as int) == field_end(text@, i as int),
        decreases text@.len() - i,
    {
        i = i + 1;
    }
    i
}

/// Reads the number of an envelope or LFO behind `prefix`.
fn read_numbered(text: &[u8], prefix: &str) -> (number: Result<usize, SrcError>)
    requires
        starts_with(text@, prefix.spec_bytes()),
    ensures
        number == numbered(text@, prefix.spec_bytes()),
{
    let from = prefix.as_bytes().len();
    let to = find_field_end(text, from);
    match read_number(text, from, to) {
        Some(n) => {
            if n >= 1 {
                Ok(n - 1)
            } else {
                Err(SrcError::Zero)
            }
        },
        None => Err(SrcError::Number),
    }
}

/// Reads the name of a modulation source.  The name is given in lower case
/// and without space around it.
pub fn parse_mod_src(text: &[u8]) -> (src: Result<ModMatrixSrc, SrcError>)
    ensures
        src == src_of(text@),
{
    if begins_with(text, "env-") {
        match read_numbered(text, "env-") {
            Ok(n) => Ok(ModMatrixSrc::Env(n)),
            Err(e) => Err(e),
        }
    } else if begins_with(text, "lfo-") {
        match read_numbered(text, "lfo-") {
            Ok(n) => Ok(ModMatrixSrc::Lfo(n)),
            Err(e) => Err(e),
        }
    } else if is_word(text, "velocity") || is_word(text, "vel") {
        Ok(ModMatrixSrc::Velocity)
    } else if is_word(text, "gate") {
        Ok(ModMatrixSrc::Gate)
    } else if is_word(text, "mod-wheel") || is_word(text, "mod-whl") {
        Ok(ModMatrixSrc::ModWheel)
    } else if is_word(text, "pitch-wheel") || is_word(text, "pitch-whl") {
        Ok(ModMatrixSrc::PitchWheel)
    } else if is_word(text, "macro-1") || is_word(text, "macro1") || is_word(text, "m-1")
        || is_word(text, "m1") {
        Ok(ModMatrixSrc::Macro1)
    } else if is_word(text, "macro-2") || is_word(text, "macro2") || is_word(text, "m-2")
        || is_word(text, "m2") {
        Ok(ModMatrixSrc::Macro2)
    } else if is_word(text, "macro-3") || is_word(text, "macro3") || is_word(text, "m-3")
        || is_word(text, "m3") {
        Ok(ModMatrixSrc::Macro3)
    } else if is_word(text, "macro-4") || is_word(text, "macro4") || is_word(text, "m-4")
        || is_word(text, "m4") {
        Ok(ModMatrixSrc::Macro4)
    } else {
        Err(SrcError::Unknown)
    }
}

/// What `str::trim` returns for a string with the given characters.
pub uninterp spec fn trimmed(text: Seq<char>) -> Seq<char>;

/// What `str::to_lowercase` returns for a string with the given characters.
pub uninterp spec fn lowercase(text: Seq<char>) -> Seq<char>;

/// `str::trim`: the string without the white space at its start and end.
/// The contract only names the result.
#[verifier::external_body]
fn trim(text: &str) -> (out: &str)
    ensures
        out@ == trimmed(text@),
{
    text.trim()
}

/// `str::to_lowercase`: the string with every character in lower case.  The
/// contract only names the result.
#[verifier::external_body]
fn to_lowercase(text: &str) -> (out: String)
    ensures
        out@ == lowercase(text@),
{
    text.to_lowercase()
}

/// Reads the name of a modulation source as it was typed: in any case, and
/// with any white space around it.
pub fn str_to_mod_src(src: &str) -> (found: Result<ModMatrixSrc, SrcError>)
    ensures
        found == src_of(vstd::utf8::encode_utf8(lowercase(trimmed(src@)))),
{
    let lowered = to_lowercase(trim(src));
    parse_mod_src(lowered.as_str().as_bytes())
}

/// Whether a name in lower case is one for the synth's volume: it is, where
/// it begins with `vol`.
pub fn is_volume_name(text: &[u8]) -> (yes: bool)
    ensures
        yes == starts_with(text@, "vol".spec_bytes()),
{
    begins_with(text, "vol")
}

/// Whether a destination's name as it was typed, in any case, is one for
/// the synth's volume.
pub fn names_volume(dest: &str) -> (yes: bool)
    ensures
        yes == starts_with(vstd::utf8::encode_utf8(lowercase(dest@)), "vol".spec_bytes()),
{
    let lowered = to_lowercase(dest);
    is_volume_name(lowered.as_str().as_bytes())
}

} // verus!
