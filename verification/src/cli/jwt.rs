//! The options of the token commands, and how long a token is to live.

use vstd::prelude::*;
use crate::text::decimal::is_number;
use crate::text::decimal::number_value;
use crate::text::decimal::parse_number;
use crate::text::paths::chars_of;
use crate::process::jwt::has_three_parts;
use crate::process::jwt::process_decode_jwt;
use crate::process::jwt::process_encode_jwt;
use crate::process::jwt::token_of;
use crate::process::jwt::JwtError;
use crate::Action;
use crate::ActionView;
use crate::CmdExector;

verus! {

/// The token commands.
#[derive(Debug)]
pub enum JwtSubCommand {
    /// Sign a claim.
    Sign(SignClaimOpts),
    /// Verify a claim.
    Verify(VerifyOpts),
}

/// The options for signing a claim.
#[derive(Debug)]
pub struct SignClaimOpts {
    /// Whom the token is about.
    pub sub: String,
    /// Whom the token is for.
    pub aud: String,
    /// When the token expires, in seconds since the epoch.
    pub exp: usize,
    /// The secret to sign with.
    pub secret: String,
}

/// The options for verifying a claim.
#[derive(Debug)]
pub struct VerifyOpts {
    /// The token to verify.
    pub token: String,
    /// The secret the token was signed with.
    pub secret: String,
}

impl CmdExector for SignClaimOpts {
    open spec fn leaves(&self, action: ActionView) -> bool {
        action matches ActionView::ShowToken(token) && token_of(*self) == Some(token)
    }

    open spec fn goes_through(&self) -> bool {
        token_of(*self) is Some
    }

    open spec fn is_refused(&self) -> bool {
        token_of(*self) is None
    }

    /// Signs the claim and leaves the token to be shown. The command goes
    /// through where a token is built for the options, and is refused where
    /// none is.
    fn execute(&self) -> (done: Result<Action, JwtError>) {
        match process_encode_jwt(self) {
            Ok(token) => Ok(Action::ShowToken(token)),
            Err(reason) => Err(reason),
        }
    }
}

impl CmdExector for VerifyOpts {
    open spec fn leaves(&self, action: ActionView) -> bool {
        action is ShowClaims && has_three_parts(self.token@)
    }

    open spec fn goes_through(&self) -> bool {
        false
    }

    open spec fn is_refused(&self) -> bool {
        !has_three_parts(self.token@)
    }

    /// Verifies the token and leaves its claim to be shown. A text that has
    /// not three parts is refused; of any other, the clock has its say, so
    /// none is certain to go through.
    fn execute(&self) -> (done: Result<Action, JwtError>) {
        match process_decode_jwt(self) {
            Ok(claims) => Ok(Action::ShowClaims(claims)),
            Err(reason) => Err(reason),
        }
    }
}

impl CmdExector for JwtSubCommand {
    open spec fn leaves(&self, action: ActionView) -> bool {
        match self {
            JwtSubCommand::Sign(opts) => opts.leaves(action),
            JwtSubCommand::Verify(opts) => opts.leaves(action),
        }
    }

    open spec fn goes_through(&self) -> bool {
        match self {
            JwtSubCommand::Sign(opts) => opts.goes_through(),
            JwtSubCommand::Verify(opts) => opts.goes_through(),
        }
    }

    open spec fn is_refused(&self) -> bool {
        match self {
            JwtSubCommand::Sign(opts) => opts.is_refused(),
            JwtSubCommand::Verify(opts) => opts.is_refused(),
        }
    }

    /// Runs the token command that was chosen, which goes as that command
    /// itself says.
    fn execute(&self) -> (done: Result<Action, JwtError>) {
        match self {
            JwtSubCommand::Sign(opts) => opts.execute(),
            JwtSubCommand::Verify(opts) => opts.execute(),
        }
    }
}

/// The longest duration that can be held, in seconds: the whole seconds of
/// `i64::MAX` milliseconds. No duration is longer, forwards or backwards.
pub const MAX_DURATION_SECONDS: i64 = 9_223_372_036_854_775;

/// Why a text is no duration.
#[derive(Debug, Clone, Copy, PartialEq, Eq, Structural)]
pub enum DurationError {
    /// What stands before the last character is no unsigned decimal number
    /// that fits a `usize`.
    InvalidNumber,
    /// The last character is none of `d`, `h`, `m` and `s`.
    InvalidUnit,
}

/// The seconds in one unit of time, for the four units `s`, `m`, `h` and `d`.
pub open spec fn unit_seconds(unit: char) -> Option<int> {
    if unit == 's' {
        Some(1)
    } else if unit == 'm' {
        Some(60)
    } else if unit == 'h' {
        Some(3_600)
    } else if unit == 'd' {
        Some(86_400)
    } else {
        None
    }
}

/// An unsigned number read as a signed one of 64 bits: a number above
/// `i64::MAX` wraps around to a negative one.
pub open spec fn as_signed(count: nat) -> int {
    if count <= i64::MAX {
        count as int
    } else {
        count - 0x1_0000_0000_0000_0000
    }
}

/// The text is one that can be read for a duration: it is not empty, its
/// last character is one byte long and so can be split off as the unit, and
/// where it holds a number and a unit, the duration is none longer than the
/// longest. No other text can be handed to `parse_duration`.
pub open spec fn is_admitted(text: Seq<char>) -> bool {
    &&& text.len() > 0
    &&& text.last() <= '\u{7f}'
    &&& is_number(text.drop_last()) ==> (unit_seconds(text.last()) matches Some(each) ==> {
        let seconds = as_signed(number_value(text.drop_last())) * each;
        -MAX_DURATION_SECONDS <= seconds <= MAX_DURATION_SECONDS
    })
}

/// The duration that an admitted text stands for, in seconds: an unsigned
/// decimal number and, as the last character, its unit. A text without a
/// number is refused before its unit is looked at.
pub open spec fn duration_of(text: Seq<char>) -> Result<int, DurationError> {
    if !is_number(text.drop_last()) {
        Err(DurationError::InvalidNumber)
    } else {
        match unit_seconds(text.last()) {
            None => Err(DurationError::InvalidUnit),
            Some(each) => Ok(as_signed(number_value(text.drop_last())) * each),
        }
    }
}

impl DurationError {
    /// The reason in words, as a mathematical value.
    pub open spec fn message_text(self) -> Seq<char> {
        match self {
            DurationError::InvalidNumber => "Invalid duration number"@,
            DurationError::InvalidUnit => "Invalid duration unit. Use d, h, m, or s."@,
        }
    }

    /// The reason in words.
    pub fn message(&self) -> (text: &'static str)
        ensures
            text@ == self.message_text(),
    {
        match self {
            DurationError::InvalidNumber => "Invalid duration number",
            DurationError::InvalidUnit => "Invalid duration unit. Use d, h, m, or s.",
        }
    }
}

/// The seconds in one unit of time.
fn seconds_in(unit: char) -> (each: Option<i64>)
    ensures
        each is Some <==> unit_seconds(unit) is Some,
        each matches Some(n) ==> unit_seconds(unit) == Some(n as int),
{
    if unit == 's' {
        Some(1)
    } else if unit == 'm' {
        Some(60)
    } else if unit == 'h' {
        Some(3_600)
    } else if unit == 'd' {
        Some(86_400)
    } else {
        None
    }
}

/// Reads an unsigned number as a signed one of 64 bits.
fn to_signed(count: usize) -> (signed: i64)
    ensures
        signed == as_signed(count as nat),
{
    let wide: u64 = count as u64;
    if wide <= 0x7fff_ffff_ffff_ffff {
        wide as i64
    } else {
        let low: u64 = wide - 0x8000_0000_0000_0000;
        (low as i64) + i64::MIN
    }
}

/// Reads a text for a duration where it is admitted, and gives nothing where
/// it is not.
fn read_duration(s: &str) -> (read: Option<Result<i64, DurationError>>)
    ensures
        read is Some <==> is_admitted(s@),
        read matches Some(Ok(seconds)) ==> duration_of(s@) == Ok::<int, DurationError>(
            seconds as int,
        ),
        read matches Some(Err(reason)) ==> duration_of(s@) == Err::<int, DurationError>(reason),
{
    let chars = chars_of(s);
    if chars.len() == 0 {
        return None;
    }
    let last: usize = chars.len() - 1;
    if chars[last] > '\u{7f}' {
        return None;
    }
    assert(chars@.take(last as int) == s@.drop_last());
    let count = match parse_number(&chars, last) {
        Some(count) => count,
        None => {
            return Some(Err(DurationError::InvalidNumber));
        },
    };
    let each = match seconds_in(chars[last]) {
        Some(each) => each,
        None => {
            return Some(Err(DurationError::InvalidUnit));
        },
    };
    let signed = to_signed(count);
    if signed > MAX_DURATION_SECONDS / each || signed < -(MAX_DURATION_SECONDS / each) {
        assert(signed * each > MAX_DURATION_SECONDS || signed * each < -MAX_DURATION_SECONDS)
            by (nonlinear_arith)
            requires
                each == 1 || each == 60 || each == 3_600 || each == 86_400,
                signed > MAX_DURATION_SECONDS / each || signed < -(MAX_DURATION_SECONDS / each),
        ;
        return None;
    }
    assert(-MAX_DURATION_SECONDS <= signed * each <= MAX_DURATION_SECONDS) by (nonlinear_arith)
        requires
            each == 1 || each == 60 || each == 3_600 || each == 86_400,
            signed <= MAX_DURATION_SECONDS / each,
            signed >= -(MAX_DURATION_SECONDS / each),
    ;
    Some(Ok(signed * each))
}

/// Whether a text can be handed to `parse_duration` and `parse_exp`.
pub fn admits(s: &str) -> (admitted: bool)
    ensures
        admitted == is_admitted(s@),
{
    read_duration(s).is_some()
}

/// Reads a duration such as `12d`: a number of days, hours, minutes or
/// seconds. Gives the duration in seconds, or the reason why the text is
/// none. The text has to be an admitted one.
pub fn parse_duration(s: &str) -> (duration: Result<i64, DurationError>)
    requires
        is_admitted(s@),
    ensures
        duration matches Ok(seconds) ==> duration_of(s@) == Ok::<int, DurationError>(
            seconds as int,
        ),
        duration matches Err(reason) ==> duration_of(s@) == Err::<int, DurationError>(reason),
        duration matches Ok(seconds) ==> -MAX_DURATION_SECONDS <= seconds
            <= MAX_DURATION_SECONDS,
{
    match read_duration(s) {
        Some(duration) => duration,
        None => vstd::pervasive::unreached(),
    }
}

/// Why no expiry could be computed.
#[derive(Debug, Clone, Copy, PartialEq, Eq, Structural)]
pub enum ExpError {
    /// The text is no duration.
    Duration(DurationError),
    /// The expiry lies outside the dates that can be held.
    OutOfRange,
}

impl ExpError {
    /// The reason in words, as a mathematical value.
    pub open spec fn message_text(self) -> Seq<char> {
        match self {
            ExpError::Duration(reason) => reason.message_text(),
            ExpError::OutOfRange => "Invilid duration"@,
        }
    }

    /// The reason in words.
    pub fn message(&self) -> (text: &'static str)
        ensures
            text@ == self.message_text(),
    {
        match self {
            ExpError::Duration(reason) => reason.message(),
            ExpError::OutOfRange => "Invilid duration",
        }
    }
}

/// The earliest time that can be held, in seconds since the epoch: the
/// first second of the first day that `chrono` holds, in the year -262143.
pub const MIN_TIMESTAMP: i64 = -8_334_601_228_800;

/// The latest time that can be held, in seconds since the epoch: the last
/// second of the last day that `chrono` holds, in the year 262142.
pub const MAX_TIMESTAMP: i64 = 8_210_266_876_799;

/// The time is one that can be held.
pub open spec fn is_timestamp(time: int) -> bool {
    MIN_TIMESTAMP <= time <= MAX_TIMESTAMP
}

/// The time, in seconds since the epoch, that lies `seconds` after the time
/// `now`: their sum, where both `now` and the sum can be held.
pub open spec fn shifted_timestamp(now: i64, seconds: i64) -> Option<i64> {
    if is_timestamp(now as int) && is_timestamp(now + seconds) {
        Some((now + seconds) as i64)
    } else {
        None
    }
}

/// Reads the clock: `chrono::Utc::now`, as whole seconds since the epoch.
/// Nothing is claimed of the result, which depends on when the call is made.
#[verifier::external_body]
fn current_timestamp() -> i64 {
    chrono::Utc::now().timestamp()
}

/// Adds a duration to a time with `chrono::DateTime::checked_add_signed`.
/// Both are whole seconds. `chrono` makes a date and time of `now` where
/// `now` lies within its first and its last day, and gives the sum where that
/// lies within them too; each is refused otherwise. The duration has to be
/// one that `chrono::Duration::seconds` accepts.
#[verifier::external_body]
fn shift_timestamp(now: i64, seconds: i64) -> (shifted: Option<i64>)
    requires
        -MAX_DURATION_SECONDS <= seconds <= MAX_DURATION_SECONDS,
    ensures
        shifted == shifted_timestamp(now, seconds),
{
    let start = chrono::DateTime::from_timestamp(now, 0)?;
    let end = start.checked_add_signed(chrono::Duration::seconds(seconds))?;
    Some(end.timestamp())
}

/// The expiry for a time that was or was not found in range. A time before
/// the epoch wraps around, as a negative number does when it is read as an
/// unsigned one.
pub open spec fn expiry_of(shifted: Option<i64>) -> Result<usize, ExpError> {
    match shifted {
        Some(then) => Ok(then as usize),
        None => Err(ExpError::OutOfRange),
    }
}

/// The expiry of a token that is to live for the duration `text` from the
/// time `now` on.
pub open spec fn expiry_at(now: i64, text: Seq<char>) -> Result<usize, ExpError> {
    match duration_of(text) {
        Ok(seconds) => expiry_of(shifted_timestamp(now, seconds as i64)),
        Err(reason) => Err(ExpError::Duration(reason)),
    }
}

/// Turns a time that was or was not found in range into an expiry.
pub fn expiry_from(shifted: Option<i64>) -> (exp: Result<usize, ExpError>)
    ensures
        exp == expiry_of(shifted),
{
    match shifted {
        Some(then) => Ok(
            #[verifier::truncate]
            (then as usize),
        ),
        None => Err(ExpError::OutOfRange),
    }
}

/// Computes when a token expires that is to live for the duration `s` from
/// the time `now` on, in seconds since the epoch: `now` plus the seconds of
/// the duration. An expiry is given exactly where the text is a duration and
/// both `now` and the expiry are times that can be held. The text has to be
/// an admitted one.
pub fn parse_exp_at(now: i64, s: &str) -> (exp: Result<usize, ExpError>)
    requires
        is_admitted(s@),
    ensures
        exp == expiry_at(now, s@),
        exp is Ok <==> (duration_of(s@) matches Ok(seconds) && is_timestamp(now as int)
            && is_timestamp(now + seconds)),
        exp matches Ok(expiry) ==> (duration_of(s@) matches Ok(seconds) && expiry == ((now
            + seconds) as i64) as usize),
        duration_of(s@) matches Err(reason) ==> exp == Err::<usize, ExpError>(
            ExpError::Duration(reason),
        ),
{
    match parse_duration(s) {
        Ok(seconds) => expiry_from(shift_timestamp(now, seconds)),
        Err(reason) => Err(ExpError::Duration(reason)),
    }
}

/// Computes when a token expires that is to live for the duration `s` from
/// now on. The clock decides what "now" is; whatever it says, a text that is
/// no duration is refused for the reason `parse_duration` gives, and an
/// expiry that is given is the clock's time plus the seconds of the
/// duration. The text has to be an admitted one.
pub fn parse_exp(s: &str) -> (exp: Result<usize, ExpError>)
    requires
        is_admitted(s@),
    ensures
        duration_of(s@) matches Err(reason) ==> exp == Err::<usize, ExpError>(
            ExpError::Duration(reason),
        ),
        exists|now: i64|
            {
                &&& exp == #[trigger] expiry_at(now, s@)
                &&& exp matches Ok(expiry) ==> (duration_of(s@) matches Ok(seconds)
                    && is_timestamp(now as int) && is_timestamp(now + seconds) && expiry == ((now
                    + seconds) as i64) as usize)
            },
{
    let now = current_timestamp();
    parse_exp_at(now, s)
}

} // verus!
