use vstd::prelude::*;

verus! {

/// Whether `c` is an ASCII decimal digit.
pub open spec fn is_digit(c: char) -> bool {
    '0' <= c <= '9'
}

/// Whether `s` is a non-empty run of ASCII decimal digits.
pub open spec fn is_decimal(s: Seq<char>) -> bool {
    s.len() > 0 && forall|i: int| 0 <= i < s.len() ==> is_digit(#[trigger] s[i])
}

/// The number that the digits `s` write.
pub open spec fn decimal_value(s: Seq<char>) -> nat
    decreases s.len(),
{
    if s.len() == 0 {
        0
    } else {
        decimal_value(s.drop_last()) * 10 + (s.last() as nat - '0' as nat) as nat
    }
}

/// The digits of `s`, without the one `+` sign that may lead them.
pub open spec fn unsigned_digits(s: Seq<char>) -> Seq<char> {
    if s.len() > 0 && s[0] == '+' {
        s.subrange(1, s.len() as int)
    } else {
        s
    }
}

/// The value of the digits `d`, if they are a decimal number that fits in 64 bits.
pub open spec fn digits_id(d: Seq<char>) -> Option<u64> {
    if is_decimal(d) && decimal_value(d) <= u64::MAX {
        Some(decimal_value(d) as u64)
    } else {
        None
    }
}

/// What `parse_id` returns for `s`.
pub open spec fn parsed_id(s: Seq<char>) -> Option<u64> {
    digits_id(unsigned_digits(s))
}

/// Why the startup configuration was refused.
#[derive(Clone, Copy, Debug, PartialEq, Eq, Structural)]
pub enum ConfigError {
    MissingToken,
    MissingGuildId,
    InvalidGuildId,
    MissingLogId,
    InvalidLogId,
}

/// What the service needs before it connects to the gateway.
pub struct Config {
    pub token: String,
    pub guild_id: u64,
    pub log_id: u64,
}

proof fn lemma_value_prefix_grows(s: Seq<char>, i: int, j: int)
    requires
        0 <= i <= j <= s.len(),
    ensures
        decimal_value(s.subrange(0, i)) <= decimal_value(s.subrange(0, j)),
    decreases j - i,
{
    if i < j {
        lemma_value_prefix_grows(s, i, j - 1);
        assert(s.subrange(0, j).drop_last() =~= s.subrange(0, j - 1));
    }
}

/// Reads a decimal id: an optional `+`, then digits only, with a value
/// that fits in 64 bits.
pub fn parse_id(s: &str) -> (r: Option<u64>)
    ensures
        r == parsed_id(s@),
{
    let n = s.unicode_len();
    if n > 0 && s.get_char(0) == '+' {
        parse_digits(s.substring_char(1, n))
    } else {
        parse_digits(s)
    }
}

fn parse_digits(s: &str) -> (r: Option<u64>)
    ensures
        r == digits_id(s@),
{
    let n = s.unicode_len();
    if n == 0 {
        return None;
    }
    let mut acc: u64 = 0;
    let mut i: usize = 0;
    while i < n
        invariant
            n == s@.len() > 0,
            i <= n,
            acc as nat == decimal_value(s@.subrange(0, i as int)),
            forall|x: int| 0 <= x < i ==> is_digit(#[trigger] s@[x]),
        decreases n - i,
    {
        let c = s.get_char(i);
        proof {
            assert(s@.subrange(0, i + 1).drop_last() =~= s@.subrange(0, i as int));
        }
        if c < '0' || c > '9' {
            assert(!is_decimal(s@));
            return None;
        }
        let d: u64 = (c as u64) - ('0' as u64);
        if acc > (u64::MAX - d) / 10 {
            proof {
                assert(acc * 10 + d > u64::MAX) by (nonlinear_arith)
                    requires
                        acc > (u64::MAX - d) / 10,
                        d <= 9,
                ;
                lemma_value_prefix_grows(s@, i + 1, n as int);
                assert(s@.subrange(0, n as int) =~= s@);
            }
            return None;
        }
        proof {
            assert(acc * 10 + d <= u64::MAX) by (nonlinear_arith)
                requires
                    acc <= (u64::MAX - d) / 10,
                    d <= 9,
            ;
        }
        acc = acc * 10 + d;
        i = i + 1;
    }
    assert(s@.subrange(0, n as int) =~= s@);
    Some(acc)
}

/// Builds the configuration from the three values read at startup, in
/// order: the token, the community id and the log channel id. The first
/// one missing or unreadable decides the error.
pub fn load_config(token: Option<String>, guild_id: Option<String>, log_id: Option<String>) -> (r:
    Result<Config, ConfigError>)
    ensures
        token.is_none() ==> r == Err::<Config, ConfigError>(ConfigError::MissingToken),
        token.is_some() && guild_id.is_none() ==> r == Err::<Config, ConfigError>(
            ConfigError::MissingGuildId,
        ),
        token.is_some() && guild_id.is_some() && parsed_id(guild_id.unwrap()@).is_none() ==> r
            == Err::<Config, ConfigError>(ConfigError::InvalidGuildId),
        token.is_some() && guild_id.is_some() && parsed_id(guild_id.unwrap()@).is_some()
            && log_id.is_none() ==> r == Err::<Config, ConfigError>(ConfigError::MissingLogId),
        token.is_some() && guild_id.is_some() && parsed_id(guild_id.unwrap()@).is_some()
            && log_id.is_some() && parsed_id(log_id.unwrap()@).is_none() ==> r == Err::<
            Config,
            ConfigError,
        >(ConfigError::InvalidLogId),
        r.is_ok() <==> token.is_some() && guild_id.is_some() && log_id.is_some() && parsed_id(
            guild_id.unwrap()@,
        ).is_some() && parsed_id(log_id.unwrap()@).is_some(),
        r.is_ok() ==> r.unwrap().token@ == token.unwrap()@ && Some(r.unwrap().guild_id)
            == parsed_id(guild_id.unwrap()@) && Some(r.unwrap().log_id) == parsed_id(
            log_id.unwrap()@,
        ),
{
    let token = match token {
        Some(t) => t,
        None => return Err(ConfigError::MissingToken),
    };
    let guild = match guild_id {
        Some(g) => g,
        None => return Err(ConfigError::MissingGuildId),
    };
    let guild_id = match parse_id(guild.as_str()) {
        Some(v) => v,
        None => return Err(ConfigError::InvalidGuildId),
    };
    let log = match log_id {
        Some(l) => l,
        None => return Err(ConfigError::MissingLogId),
    };
    let log_id = match parse_id(log.as_str()) {
        Some(v) => v,
        None => return Err(ConfigError::InvalidLogId),
    };
    Ok(Config { token, guild_id, log_id })
}

} // verus!
