use vstd::prelude::*;

verus! {

/// `std::num::ParseIntError`, carried through from number parsing.
#[verifier::external_type_specification]
#[verifier::external_body]
pub struct ExParseIntError(std::num::ParseIntError);

/// A pause, in whole milliseconds.
#[derive(Clone, Copy, PartialEq, Eq, Structural, Debug)]
pub struct Delay {
    pub millis: u64,
}

/// Why a game could not be set up.
#[derive(Clone, Copy, PartialEq, Eq, Structural, Debug)]
pub enum ConfigError {
    /// The field has no columns.
    ZeroWidth,
    /// The field has no rows.
    ZeroHeight,
    /// A delay was not a whole number of milliseconds.
    NotMillis,
}

/// The settings of one game.
#[derive(Clone, Copy, PartialEq, Eq, Structural, Debug)]
pub struct Config {
    pub field_width: u16,
    pub field_height: u16,
    /// The length the snake grows to at the start.
    pub initial_snake_len: u8,
    /// The pause after each frame.
    pub frame_delay: Delay,
    /// The least time between two moves of the snake.
    pub motion_delay: Delay,
}

pub open spec fn is_decimal_digit(c: char) -> bool {
    ('0' as u32) <= (c as u32) && (c as u32) <= ('9' as u32)
}

/// The text with one leading `+` taken off, if it has one.
pub open spec fn unsigned_body(s: Seq<char>) -> Seq<char> {
    if s.len() > 0 && s[0] == '+' {
        s.drop_first()
    } else {
        s
    }
}

/// The number that a string of decimal digits writes.
pub open spec fn digits_value(s: Seq<char>) -> nat
    decreases s.len(),
{
    if s.len() == 0 {
        0
    } else {
        digits_value(s.drop_last()) * 10 + ((s.last() as u32) - ('0' as u32)) as nat
    }
}

/// Whether the text is an unsigned decimal number that fits in a `u64`:
/// an optional `+`, then one or more digits.
pub open spec fn parses_as_u64(s: Seq<char>) -> bool {
    let d = unsigned_body(s);
    &&& d.len() > 0
    &&& forall|i: int| 0 <= i < d.len() ==> is_decimal_digit(#[trigger] d[i])
    &&& digits_value(d) <= u64::MAX
}

/// Relies on `str::parse::<u64>` (the standard `FromStr` for `u64`): an
/// optional `+` followed by decimal digits, with a value that fits, is read
/// as that value; anything else is an error.
#[verifier::external_body]
fn parse_u64(s: &str) -> (r: Result<u64, std::num::ParseIntError>)
    ensures
        r is Ok <==> parses_as_u64(s@),
        r is Ok ==> r->Ok_0 == digits_value(unsigned_body(s@)),
{
    s.parse::<u64>()
}

/// Reads a delay written as a whole number of milliseconds.
pub fn parse_duration_from_millis(arg: &str) -> (r: Result<Delay, ConfigError>)
    ensures
        r is Ok <==> parses_as_u64(arg@),
        r is Ok ==> r->Ok_0.millis == digits_value(unsigned_body(arg@)),
        r is Err ==> r->Err_0 == ConfigError::NotMillis,
{
    match parse_u64(arg) {
        Ok(millis) => Ok(Delay { millis }),
        Err(_) => Err(ConfigError::NotMillis),
    }
}

} // verus!
