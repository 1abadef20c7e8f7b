//! The dice roll: a random number between one and the requested limit.

use vstd::prelude::*;
use rand::Rng;
use crate::commands::{CommandOption, MyCommand, MyCommandOption};
use crate::error::Error;
use crate::matcher::spec_parse_u64;
use crate::text::dec_rep;

verus! {

pub const DEFAULT_LIMIT: u64 = 100;

/// Relies on rand's thread_rng and gen_range: a number somewhere in the
/// closed range; nothing more is promised of a random draw.
#[verifier::external_body]
fn random_in_range(lo: u64, hi: u64) -> (r: u64)
    requires
        lo <= hi,
    ensures
        lo <= r <= hi,
{
    rand::thread_rng().gen_range(lo..=hi)
}

/// The limit a message invocation rolls under: its first argument when that
/// parses, the default otherwise.
pub fn roll_limit(first_arg: Option<&str>) -> (r: u64)
    ensures
        r == match first_arg {
            Some(a) => match spec_parse_u64(a@) {
                Some(n) => n,
                None => DEFAULT_LIMIT,
            },
            None => DEFAULT_LIMIT,
        },
{
    match first_arg {
        Some(a) => match crate::matcher::parse_u64_str(a) {
            Some(n) => n,
            None => DEFAULT_LIMIT,
        },
        None => DEFAULT_LIMIT,
    }
}

/// The announcement of one roll.
pub open spec fn spec_roll_message(author_id: u64, num: u64) -> Seq<char> {
    "<@"@ + dec_rep(author_id as nat) + "> rolls "@ + dec_rep(num as nat) + " point"@ + (if num
        == 1 {
        Seq::<char>::empty()
    } else {
        "s"@
    }) + " :game_die:"@
}

/// Rolls once for the author under the given limit; a limit below two still
/// rolls between one and one-or-the-limit. Whatever the draw, the reply
/// announces exactly the drawn number.
pub fn roll(author_id: u64, limit: u64) -> (r: (u64, String))
    ensures
        1 <= r.0 <= (if limit >= 2 { limit as int } else { 1int }),
        r.1@ == spec_roll_message(author_id, r.0),
{
    let hi: u64 = if limit >= 2 {
        limit
    } else {
        1
    };
    let num = random_in_range(1, hi);
    let mut text = "<@".to_owned();
    let author_text = crate::text::u64_to_string(author_id);
    text.append(author_text.as_str());
    text.append("> rolls ");
    let num_text = crate::text::u64_to_string(num);
    text.append(num_text.as_str());
    text.append(" point");
    if num != 1 {
        text.append("s");
    }
    text.append(" :game_die:");
    proof {
        assert(text@ =~= spec_roll_message(author_id, num));
    }
    (num, text)
}

/// The limit carried by a slash invocation's options: the last `limit`
/// integer wins, clamped below at zero; any other option is a defect.
pub open spec fn spec_parse_roll(options: Seq<CommandOption>, acc: Option<u64>) -> Result<
    u64,
    Error,
>
    decreases options.len(),
{
    if options.len() == 0 {
        match acc {
            Some(n) => Ok(n),
            None => Ok(DEFAULT_LIMIT),
        }
    } else {
        match options[0] {
            CommandOption::Int { name, value } => {
                if name@ == "limit"@ {
                    spec_parse_roll(
                        options.drop_first(),
                        Some((if value >= 0 { value } else { 0 }) as u64),
                    )
                } else {
                    Err(Error::InvalidCommandOptions)
                }
            },
            _ => Err(Error::InvalidCommandOptions),
        }
    }
}

/// Reads the roll limit off a slash invocation.
#[verifier::loop_isolation(false)]
pub fn parse_roll_options(options: &Vec<CommandOption>) -> (r: Result<u64, Error>)
    ensures
        r == spec_parse_roll(options@, None),
{
    let mut limit: Option<u64> = None;
    let mut i: usize = 0;
    proof {
        assert(options@.skip(0) =~= options@);
    }
    while i < options.len()
        invariant
            0 <= i <= options@.len(),
            spec_parse_roll(options@, None) == spec_parse_roll(options@.skip(i as int), limit),
        decreases options@.len() - i,
    {
        proof {
            assert(options@.skip(i as int)[0] == options@[i as int]);
            assert(options@.skip(i as int).drop_first() =~= options@.skip(i + 1));
        }
        match &options[i] {
            CommandOption::Int { name, value } => {
                if crate::text::str_eq(name.as_str(), "limit") {
                    limit = Some(if *value >= 0 {
                        *value as u64
                    } else {
                        0
                    });
                } else {
                    return Err(Error::InvalidCommandOptions);
                }
            },
            _ => {
                return Err(Error::InvalidCommandOptions);
            },
        }
        i = i + 1;
    }
    proof {
        assert(options@.skip(options@.len() as int) =~= Seq::<CommandOption>::empty());
    }
    match limit {
        Some(n) => Ok(n),
        None => Ok(DEFAULT_LIMIT),
    }
}

/// The `roll` slash command definition.
pub fn define_roll() -> (r: MyCommand)
    ensures
        r.name@ == "roll"@,
        r.description@ == "Roll a random number"@,
        r.help is None,
        r.options@.len() == 1,
        r.options@[0].name@ == "limit"@,
        r.options@[0].description@ == "Specify an upper limit, defaults to 100"@,
        r.options@[0].help is None,
        r.options@[0].kind matches crate::commands::OptionKind::Integer { choices, required }
            && choices@.len() == 0 && !required,
{
    let limit = MyCommandOption::builder("limit", "Specify an upper limit, defaults to 100")
        .integer(Vec::new(), false);
    let mut options: Vec<MyCommandOption> = Vec::new();
    options.push(limit);
    MyCommand::new("roll", "Roll a random number").options(options)
}

} // verus!
