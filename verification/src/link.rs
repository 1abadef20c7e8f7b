//! Linking a platform account to a game or stream profile: the slash
//! command definition, its option parsing, and the notice the deprecated
//! message command answers with.

use vstd::prelude::*;
use crate::commands::{CommandOption, MyCommand, MyCommandOption};
use crate::error::Error;

verus! {

/// Which link changes an invocation asks for.
#[derive(Clone, Copy, Debug, PartialEq, Eq, Structural, Default)]
pub struct ConfigArgs {
    pub osu: Option<bool>,
    pub twitch: Option<bool>,
}

/// The link arguments carried by a slash invocation: the last value of each
/// boolean wins; any other option is a defect.
pub open spec fn spec_parse_link(options: Seq<CommandOption>, acc: ConfigArgs) -> Result<
    ConfigArgs,
    Error,
>
    decreases options.len(),
{
    if options.len() == 0 {
        Ok(acc)
    } else {
        match options[0] {
            CommandOption::Bool { name, value } => {
                if name@ == "osu"@ {
                    spec_parse_link(
                        options.drop_first(),
                        ConfigArgs { osu: Some(value), ..acc },
                    )
                } else if name@ == "twitch"@ {
                    spec_parse_link(
                        options.drop_first(),
                        ConfigArgs { twitch: Some(value), ..acc },
                    )
                } else {
                    Err(Error::InvalidCommandOptions)
                }
            },
            _ => Err(Error::InvalidCommandOptions),
        }
    }
}

/// Reads the link arguments off a slash invocation.
#[verifier::loop_isolation(false)]
pub fn parse_link_options(options: &Vec<CommandOption>) -> (r: Result<ConfigArgs, Error>)
    ensures
        r == spec_parse_link(options@, ConfigArgs { osu: None, twitch: None }),
{
    let mut args = ConfigArgs { osu: None, twitch: None };
    let mut i: usize = 0;
    proof {
        assert(options@.skip(0) =~= options@);
    }
    while i < options.len()
        invariant
            0 <= i <= options@.len(),
            spec_parse_link(options@, ConfigArgs { osu: None, twitch: None }) == spec_parse_link(
                options@.skip(i as int),
                args,
            ),
        decreases options@.len() - i,
    {
        proof {
            assert(options@.skip(i as int)[0] == options@[i as int]);
            assert(options@.skip(i as int).drop_first() =~= options@.skip(i + 1));
        }
        match &options[i] {
            CommandOption::Bool { name, value } => {
                if crate::text::str_eq(name.as_str(), "osu") {
                    args = ConfigArgs { osu: Some(*value), ..args };
                } else if crate::text::str_eq(name.as_str(), "twitch") {
                    args = ConfigArgs { twitch: Some(*value), ..args };
                } else {
                    return Err(Error::InvalidCommandOptions);
                }
            },
            _ => {
                return Err(Error::InvalidCommandOptions);
            },
        }
        i = i + 1;
    }
    proof {
        assert(options@.skip(options@.len() as int) =~= Seq::<CommandOption>::empty());
    }
    Ok(args)
}

/// The notice the deprecated message command answers with, pointing at the
/// given invite link.
pub fn link_deprecation_notice(invite_link: &str) -> (r: String)
    ensures
        r@
            == "This command is deprecated and no longer works.\nUse the slash command `/link` instead.\nIf slash commands are not available in your server, try [re-inviting the bot]("@
            + invite_link@ + ")."@,
{
    let mut s =
        "This command is deprecated and no longer works.\nUse the slash command `/link` instead.\nIf slash commands are not available in your server, try [re-inviting the bot](".to_owned();
    s.append(invite_link);
    s.append(").");
    s
}

/// The `link` slash command definition.
pub fn define_link() -> (r: MyCommand)
    ensures
        r.name@ == "link"@,
        r.description@ == "(Un)link your discord to an osu! or twitch account"@,
        r.help matches Some(h) && h@
            == "This command allows you to link or unlink to an osu! or twitch account."@,
        r.options@.len() == 2,
        r.options@[0].name@ == "osu"@,
        r.options@[0].description@
            == "Specify whether you want to link to an osu! profile (choose `false` to unlink)"@,
        r.options@[0].help is Some,
        r.options@[0].kind matches crate::commands::OptionKind::Boolean { required } && !required,
        r.options@[1].name@ == "twitch"@,
        r.options@[1].description@
            == "Specify whether you want to link to a twitch profile (choose `false` to unlink)"@,
        r.options@[1].help is Some,
        r.options@[1].kind matches crate::commands::OptionKind::Boolean { required } && !required,
{
    let osu_description =
        "Specify whether you want to link to an osu! profile (choose `false` to unlink)";

    let osu_help =
        "Most osu! commands require a specified username to work.\nSince using a command is most commonly intended for your own profile, you can link your discord with an osu! profile so that when no username is specified in commands, it will choose the linked username.\nIf the value is set to `True`, it will prompt you to authorize your account.\nIf `False` is selected, you will be unlinked from the osu! profile.";

    let osu = MyCommandOption::builder("osu", osu_description).help(osu_help).boolean(false);

    let twitch_description =
        "Specify whether you want to link to a twitch profile (choose `false` to unlink)";

    let twitch_help =
        "With this option you can link to a twitch channel.\nWhen you have both your osu! and twitch linked, are currently streaming, and anyone uses the `recent score` command on your osu! username, it will try to retrieve the last VOD from your twitch channel and link to a timestamp for the score.\nIf the value is set to `True`, it will prompt you to authorize your account.\nIf `False` is selected, you will be unlinked from the twitch channel.";

    let twitch = MyCommandOption::builder("twitch", twitch_description).help(
        twitch_help,
    ).boolean(false);

    let description = "(Un)link your discord to an osu! or twitch account";

    let help = "This command allows you to link or unlink to an osu! or twitch account.";

    let mut options: Vec<MyCommandOption> = Vec::new();
    options.push(osu);
    options.push(twitch);
    MyCommand::new("link", description).help(help).options(options)
}

} // verus!
