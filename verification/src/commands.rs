//! The command router: parse a raw request into an invocation, run the
//! authority and rate-limit gates in that order, and decide whether the
//! business-logic collaborator may be invoked.
//!
//! The authority check precedes every bucket take, so a denied actor never
//! consumes a cooldown token: probing privileged commands cannot starve
//! legitimate users who share a bucket key.

use vstd::prelude::*;
use crate::authority::{spec_check, AuthorityDecision, AuthorityGate, AuthorityResult};
use crate::buckets::{recent_count, spec_parse_bucket_name, BucketName, BucketRegistry};
use crate::cache::EntityCache;
use crate::config::GuildConfigStore;
use crate::error::{Error, ParseError};
use crate::text::{dec_rep, u64_to_string};

verus! {

/// One parsed command request, consumed once by the router.
#[derive(Debug)]
pub struct Invocation {
    pub author_id: u64,
    pub guild_id: Option<u64>,
    pub channel_id: u64,
    pub command: String,
    pub args_raw: String,
}

/// Anything that knows who asked and where.
pub trait Authored {
    spec fn spec_author(&self) -> Option<u64>;

    spec fn spec_guild(&self) -> Option<u64>;

    fn author(&self) -> (r: Option<u64>)
        ensures
            r == self.spec_author(),
    ;

    fn guild_id(&self) -> (r: Option<u64>)
        ensures
            r == self.spec_guild(),
    ;
}

impl Authored for Invocation {
    open spec fn spec_author(&self) -> Option<u64> {
        Some(self.author_id)
    }

    open spec fn spec_guild(&self) -> Option<u64> {
        self.guild_id
    }

    fn author(&self) -> (r: Option<u64>) {
        Some(self.author_id)
    }

    fn guild_id(&self) -> (r: Option<u64>) {
        self.guild_id
    }
}

/// A component interaction: unlike a message, the platform may omit its
/// author.
#[derive(Debug)]
pub struct ComponentInteraction {
    pub author_id: Option<u64>,
    pub guild_id: Option<u64>,
    pub message_id: u64,
}

impl Authored for ComponentInteraction {
    open spec fn spec_author(&self) -> Option<u64> {
        self.author_id
    }

    open spec fn spec_guild(&self) -> Option<u64> {
        self.guild_id
    }

    fn author(&self) -> (r: Option<u64>) {
        self.author_id
    }

    fn guild_id(&self) -> (r: Option<u64>) {
        self.guild_id
    }
}

/// How far a prefixed command name reaches into `s`: the index of the first
/// space, or the whole length.
pub open spec fn token_end(s: Seq<char>) -> int
    decreases s.len(),
{
    if s.len() == 0 {
        0
    } else if s[0] == ' ' {
        0
    } else {
        1 + token_end(s.drop_first())
    }
}

pub proof fn lemma_token_end(s: Seq<char>)
    ensures
        0 <= token_end(s) <= s.len(),
        forall|j: int| 0 <= j < token_end(s) ==> s[j] != ' ',
        token_end(s) < s.len() ==> s[token_end(s)] == ' ',
    decreases s.len(),
{
    if s.len() > 0 && s[0] != ' ' {
        lemma_token_end(s.drop_first());
        assert forall|j: int| 0 <= j < token_end(s) implies s[j] != ' ' by {
            if j > 0 {
                assert(s.drop_first()[j - 1] != ' ');
            }
        }
    }
}

/// `p` is a prefix of `s`.
pub open spec fn has_prefix(s: Seq<char>, p: Seq<char>) -> bool {
    p.len() <= s.len() && s.subrange(0, p.len() as int) == p
}

/// What parsing a raw message into an invocation yields.
pub open spec fn spec_parse(
    content: Seq<char>,
    prefix: Seq<char>,
) -> Result<(Seq<char>, Seq<char>), ParseError> {
    if !has_prefix(content, prefix) {
        Err(ParseError::MissingPrefix)
    } else {
        let rest = content.subrange(prefix.len() as int, content.len() as int);
        if rest.len() == 0 || rest[0] == ' ' {
            Err(ParseError::MissingCommand)
        } else {
            let end = token_end(rest);
            let cmd = rest.subrange(0, end);
            let args = if end < rest.len() {
                rest.subrange(end + 1, rest.len() as int)
            } else {
                Seq::empty()
            };
            Ok((cmd, args))
        }
    }
}

/// Parses one raw inbound message into an invocation: the configured prefix,
/// then the command name up to the first space, then the raw arguments.
/// Malformed input yields a typed parse error, never a crash.
#[verifier::loop_isolation(false)]
pub fn parse_invocation(
    content: &str,
    prefix: &str,
    author_id: u64,
    guild_id: Option<u64>,
    channel_id: u64,
) -> (r: Result<Invocation, ParseError>)
    ensures
        ({
            match spec_parse(content@, prefix@) {
                Err(e) => r matches Err(e2) && e2 == e,
                Ok((cmd, args)) => {
                    &&& r matches Ok(inv)
                    &&& inv.command@ == cmd
                    &&& inv.args_raw@ == args
                    &&& inv.author_id == author_id
                    &&& inv.guild_id == guild_id
                    &&& inv.channel_id == channel_id
                },
            }
        }),
{
    let content_len = content.unicode_len();
    let prefix_len = prefix.unicode_len();
    if prefix_len > content_len {
        return Err(ParseError::MissingPrefix);
    }
    let mut i: usize = 0;
    while i < prefix_len
        invariant
            0 <= i <= prefix_len,
            forall|j: int| 0 <= j < i ==> content@[j] == prefix@[j],
        decreases prefix_len - i,
    {
        if content.get_char(i) != prefix.get_char(i) {
            proof {
                assert(content@.subrange(0, prefix@.len() as int)[i as int] != prefix@[i as int]);
            }
            return Err(ParseError::MissingPrefix);
        }
        i = i + 1;
    }
    proof {
        assert(content@.subrange(0, prefix@.len() as int) =~= prefix@);
    }
    let ghost rest = content@.subrange(prefix@.len() as int, content@.len() as int);
    if prefix_len == content_len {
        return Err(ParseError::MissingCommand);
    }
    if content.get_char(prefix_len) == ' ' {
        return Err(ParseError::MissingCommand);
    }
    // Scan for the end of the command token.
    let mut end: usize = prefix_len;
    while end < content_len && content.get_char(end) != ' '
        invariant
            prefix_len <= end <= content_len,
            forall|j: int| prefix_len <= j < end ==> content@[j] != ' ',
        decreases content_len - end,
    {
        end = end + 1;
    }
    proof {
        lemma_token_end(rest);
        // Both `end - prefix_len` and `token_end(rest)` point at the first
        // space (or the end), so they agree.
        let te = token_end(rest);
        let e = end - prefix_len;
        assert forall|j: int| 0 <= j < e implies rest[j] != ' ' by {
            assert(content@[prefix@.len() + j] != ' ');
        }
        if e < te {
            assert(rest[e] == content@[prefix@.len() + e]);
            assert(false);
        }
        if te < e {
            assert(content@[prefix@.len() + te] == rest[te]);
            assert(false);
        }
    }
    let command = content.substring_char(prefix_len, end).to_owned();
    let args_raw = if end < content_len {
        content.substring_char(end + 1, content_len).to_owned()
    } else {
        String::new()
    };
    proof {
        assert(command@ =~= rest.subrange(0, token_end(rest)));
        if end < content_len {
            assert(args_raw@ =~= rest.subrange(token_end(rest) + 1, rest.len() as int));
        }
    }
    Ok(Invocation { author_id, guild_id, channel_id, command, args_raw })
}

/// The generic notice an actor sees when the business-logic collaborator
/// fails; the underlying error is kept for operator-facing logging and is
/// never shown.
pub fn dispatch_failure_notice() -> (r: &'static str)
    ensures
        r@ == "Something went wrong, blame bade"@,
{
    "Something went wrong, blame bade"
}

/// What the router decided about one invocation.
#[derive(Clone, Copy, Debug, PartialEq, Eq, Structural)]
pub enum ProcessResult {
    Success,
    NoDM,
    NoSendPermission,
    Ratelimited(BucketName),
    NoOwner,
    NoAuthority,
}

impl ProcessResult {
    pub fn success(_unit: ()) -> (r: Self)
        ensures
            r == ProcessResult::Success,
    {
        let _ = _unit;
        Self::Success
    }

    /// The log line for this outcome.
    pub fn describe(&self) -> (r: String)
        ensures
            match *self {
                ProcessResult::Success => r@ == "Success"@,
                ProcessResult::NoDM => r@ == "NoDM"@,
                ProcessResult::NoSendPermission => r@ == "NoSendPermission"@,
                ProcessResult::Ratelimited(b) => r@ == "Ratelimited ("@
                    + crate::buckets::bucket_name_text(b) + ")"@,
                ProcessResult::NoOwner => r@ == "NoOwner"@,
                ProcessResult::NoAuthority => r@ == "NoAuthority"@,
            },
    {
        match self {
            ProcessResult::Success => "Success".to_owned(),
            ProcessResult::NoDM => "NoDM".to_owned(),
            ProcessResult::NoSendPermission => "NoSendPermission".to_owned(),
            ProcessResult::Ratelimited(b) => {
                let mut s = "Ratelimited (".to_owned();
                s.append(b.as_str());
                s.append(")");
                s
            },
            ProcessResult::NoOwner => "NoOwner".to_owned(),
            ProcessResult::NoAuthority => "NoAuthority".to_owned(),
        }
    }
}

/// Is the actor allowed, per the authority gate?
pub fn check_authority<A: Authored>(
    cache: &EntityCache,
    store: &GuildConfigStore,
    authored: &A,
) -> (r: Result<Option<String>, Error>)
    ensures
        authored.spec_author() is None ==> r == Result::<Option<String>, Error>::Err(
            Error::MissingInteractionAuthor,
        ),
        authored.spec_author() matches Some(author) ==> ({
            match spec_check(cache, store, author, authored.spec_guild()) {
                AuthorityDecision::Allowed => r matches Ok(x) && x is None,
                AuthorityDecision::Denied(t) => ({
                    &&& r matches Ok(x)
                    &&& x matches Some(s)
                    &&& s@ == t
                }),
                AuthorityDecision::Indeterminate(m) => r == Result::<Option<String>, Error>::Err(
                    Error::MemberNotCached(m),
                ),
            }
        }),
{
    let author_id = match authored.author() {
        Some(a) => a,
        None => {
            return Err(Error::MissingInteractionAuthor);
        },
    };
    let guild_id = authored.guild_id();
    _check_authority(cache, store, author_id, guild_id)
}

/// The authority gate mapped onto the router's result shape: `Ok(None)`
/// means the actor qualifies, `Ok(Some(text))` is a denial to report, and
/// `Err` an inconsistency.
pub fn _check_authority(
    cache: &EntityCache,
    store: &GuildConfigStore,
    author_id: u64,
    guild_id: Option<u64>,
) -> (r: Result<Option<String>, Error>)
    ensures
        ({
            match spec_check(cache, store, author_id, guild_id) {
                AuthorityDecision::Allowed => r matches Ok(x) && x is None,
                AuthorityDecision::Denied(t) => ({
                    &&& r matches Ok(x)
                    &&& x matches Some(s)
                    &&& s@ == t
                }),
                AuthorityDecision::Indeterminate(m) => r == Result::<Option<String>, Error>::Err(
                    Error::MemberNotCached(m),
                ),
            }
        }),
{
    match AuthorityGate::check(cache, store, author_id, guild_id) {
        AuthorityResult::Allowed => Ok(None),
        AuthorityResult::Denied(text) => Ok(Some(text)),
        AuthorityResult::Indeterminate(miss) => Err(Error::MemberNotCached(miss)),
    }
}

/// Which counter key a bucket charges: snipe shares one global key, songs
/// charge the guild (or the author in direct messages), everything else
/// charges the actor.
pub open spec fn spec_bucket_key(name: BucketName, author_id: u64, guild_id: Option<u64>) -> u64 {
    match name {
        BucketName::Snipe => 0u64,
        BucketName::Songs => match guild_id {
            Some(g) => g,
            None => author_id,
        },
        _ => author_id,
    }
}

/// Charges the declared bucket and reports a pending cooldown, if any.
pub fn _check_ratelimit(
    buckets: &mut BucketRegistry,
    author_id: u64,
    guild_id: Option<u64>,
    bucket: BucketName,
    now: i64,
) -> (r: Option<(i64, BucketName)>)
    requires
        old(buckets).wf(),
        old(buckets).configured(bucket),
        now >= old(buckets).bucket(bucket).last_seen(),
        now + old(buckets).bucket(bucket).interval() <= i64::MAX,
    ensures
        final(buckets).wf(),
        final(buckets).configured(bucket),
        forall|n: BucketName|
            crate::buckets::bucket_slot(n) != crate::buckets::bucket_slot(bucket)
                ==> #[trigger] final(buckets).slot_state(n) == old(buckets).slot_state(n),
        ({
            let b = old(buckets).bucket(bucket);
            let key = spec_bucket_key(bucket, author_id, guild_id);
            let h = b.history(key);
            let fresh = recent_count(h, now - b.interval());
            if fresh < b.capacity() {
                &&& r is None
                &&& final(buckets).bucket(bucket).history(key) == h.push(now as int)
            } else {
                &&& r matches Some(p)
                &&& p.1 == bucket
                &&& p.0 == h[h.len() - b.capacity()] + b.interval() - now
                &&& p.0 > 0
                &&& p.0 <= b.interval()
                &&& final(buckets).bucket(bucket).history(key) == h
            }
        }),
        forall|k: u64|
            k != spec_bucket_key(bucket, author_id, guild_id)
                ==> #[trigger] final(buckets).bucket(bucket).history(k) == old(buckets).bucket(
                bucket,
            ).history(k),
        final(buckets).bucket(bucket).capacity() == old(buckets).bucket(bucket).capacity(),
        final(buckets).bucket(bucket).interval() == old(buckets).bucket(bucket).interval(),
        final(buckets).bucket(bucket).last_seen() == now,
{
    let key: u64 = match bucket {
        BucketName::Snipe => 0,
        BucketName::Songs => match guild_id {
            Some(g) => g,
            None => author_id,
        },
        _ => author_id,
    };
    let ratelimit = buckets.take(bucket, key, now);
    if ratelimit > 0 {
        Some((ratelimit, bucket))
    } else {
        None
    }
}

/// Reads the actor and guild off the request and charges the named bucket.
/// A request without an author is never charged.
pub fn check_ratelimit<A: Authored>(
    buckets: &mut BucketRegistry,
    authored: &A,
    bucket: &str,
    now: i64,
) -> (r: Option<(i64, BucketName)>)
    requires
        spec_parse_bucket_name(bucket@) is Some,
        old(buckets).wf(),
        old(buckets).configured(spec_parse_bucket_name(bucket@)->Some_0),
        now >= old(buckets).bucket(spec_parse_bucket_name(bucket@)->Some_0).last_seen(),
        now + old(buckets).bucket(spec_parse_bucket_name(bucket@)->Some_0).interval()
            <= i64::MAX,
    ensures
        final(buckets).wf(),
        authored.spec_author() is None ==> r is None && *final(buckets) == *old(buckets),
        authored.spec_author() matches Some(author) ==> ({
            let name = spec_parse_bucket_name(bucket@)->Some_0;
            let b = old(buckets).bucket(name);
            let key = spec_bucket_key(name, author, authored.spec_guild());
            let fresh = recent_count(b.history(key), now - b.interval());
            if fresh < b.capacity() {
                &&& r is None
                &&& final(buckets).bucket(name).history(key) == b.history(key).push(now as int)
            } else {
                &&& r matches Some(p)
                &&& p.1 == name
                &&& p.0 == b.history(key)[b.history(key).len() - b.capacity()] + b.interval()
                    - now
                &&& p.0 > 0
                &&& p.0 <= b.interval()
            }
        }),
{
    let author_id = match authored.author() {
        Some(a) => a,
        None => {
            return None;
        },
    };
    let guild_id = authored.guild_id();
    let name = match BucketName::parse(bucket) {
        Some(n) => n,
        None => {
            proof {
                assert(false);
            }
            return None;
        },
    };
    _check_ratelimit(buckets, author_id, guild_id, name, now)
}

/// What a command declares to the router.
pub struct CommandMeta {
    pub name: String,
    /// Only usable inside guilds.
    pub only_guilds: bool,
    /// Only the operator may run it.
    pub owner_only: bool,
    /// Requires the authority gate.
    pub authority: bool,
    /// The bucket charged per invocation, if any.
    pub bucket: Option<BucketName>,
}

/// The actor-facing cooldown notice.
pub open spec fn cooldown_text(cooldown: int) -> Seq<char> {
    "Command on cooldown, try again in "@ + dec_rep(cooldown as nat) + " seconds"@
}

/// All gates that precede the rate limiter pass.
pub open spec fn spec_gates_pass(
    meta: &CommandMeta,
    inv: &Invocation,
    cache: &EntityCache,
    store: &GuildConfigStore,
    owner_id: u64,
    can_send: bool,
) -> bool {
    &&& can_send
    &&& (meta.only_guilds ==> inv.guild_id is Some)
    &&& (meta.owner_only ==> inv.author_id == owner_id)
    &&& (meta.authority ==> spec_check(cache, store, inv.author_id, inv.guild_id)
        is Allowed)
}

/// Sequences the gates for one invocation: send permission, guild-only,
/// owner-only, then authority, then — only once all of those passed — the
/// rate limiter. A denied actor never consumes a cooldown token, so the
/// bucket state is untouched on every refusal path. `Success` means the
/// business-logic collaborator may now be invoked.
pub fn process_command(
    meta: &CommandMeta,
    inv: &Invocation,
    cache: &EntityCache,
    store: &GuildConfigStore,
    buckets: &mut BucketRegistry,
    owner_id: u64,
    can_send: bool,
    now: i64,
) -> (r: Result<(ProcessResult, Option<String>), Error>)
    requires
        old(buckets).wf(),
        meta.bucket matches Some(b) ==> old(buckets).configured(b) && now >= old(buckets).bucket(
            b,
        ).last_seen() && now + old(buckets).bucket(b).interval() <= i64::MAX,
    ensures
        final(buckets).wf(),
        // No gate refusal ever charges a bucket.
        !spec_gates_pass(meta, inv, cache, store, owner_id, can_send) ==> *final(buckets) == *old(
            buckets,
        ),
        !can_send ==> ({
            &&& r matches Ok(p)
            &&& p == (ProcessResult::NoSendPermission, Option::<String>::None)
        }),
        can_send && meta.only_guilds && inv.guild_id is None ==> ({
            &&& r matches Ok(p)
            &&& p == (ProcessResult::NoDM, Option::<String>::None)
        }),
        can_send && (meta.only_guilds ==> inv.guild_id is Some) && meta.owner_only
            && inv.author_id != owner_id ==> ({
            &&& r matches Ok(p)
            &&& p == (ProcessResult::NoOwner, Option::<String>::None)
        }),
        can_send && (meta.only_guilds ==> inv.guild_id is Some) && (meta.owner_only
            ==> inv.author_id == owner_id) && meta.authority ==> ({
            match spec_check(cache, store, inv.author_id, inv.guild_id) {
                AuthorityDecision::Allowed => true,
                AuthorityDecision::Denied(t) => ({
                    &&& r matches Ok(p)
                    &&& p.0 == ProcessResult::NoAuthority
                    &&& p.1 matches Some(s)
                    &&& s@ == t
                }),
                AuthorityDecision::Indeterminate(m) => r == Result::<
                    (ProcessResult, Option<String>),
                    Error,
                >::Err(Error::MemberNotCached(m)),
            }
        }),
        spec_gates_pass(meta, inv, cache, store, owner_id, can_send) ==> ({
            match meta.bucket {
                None => ({
                    &&& r matches Ok(p)
                    &&& p == (ProcessResult::Success, Option::<String>::None)
                    &&& *final(buckets) == *old(buckets)
                }),
                Some(name) => {
                    let b = old(buckets).bucket(name);
                    let key = spec_bucket_key(name, inv.author_id, inv.guild_id);
                    let fresh = recent_count(b.history(key), now - b.interval());
                    if fresh < b.capacity() {
                        &&& r matches Ok(p)
                        &&& p == (ProcessResult::Success, Option::<String>::None)
                        &&& final(buckets).bucket(name).history(key) == b.history(key).push(
                            now as int,
                        )
                    } else {
                        let h = b.history(key);
                        let cd = h[h.len() - b.capacity()] + b.interval() - now;
                        &&& r matches Ok(p)
                        &&& p.0 == ProcessResult::Ratelimited(name)
                        &&& p.1 matches Some(s)
                        &&& s@ == cooldown_text(cd)
                        &&& final(buckets).bucket(name).history(key) == h
                    }
                },
            }
        }),
{
    if !can_send {
        return Ok((ProcessResult::NoSendPermission, None));
    }
    if meta.only_guilds && inv.guild_id.is_none() {
        return Ok((ProcessResult::NoDM, None));
    }
    if meta.owner_only && inv.author_id != owner_id {
        return Ok((ProcessResult::NoOwner, None));
    }
    if meta.authority {
        match _check_authority(cache, store, inv.author_id, inv.guild_id) {
            Ok(None) => {},
            Ok(Some(text)) => {
                return Ok((ProcessResult::NoAuthority, Some(text)));
            },
            Err(e) => {
                return Err(e);
            },
        }
    }
    match meta.bucket {
        Some(name) => {
            match _check_ratelimit(buckets, inv.author_id, inv.guild_id, name, now) {
                Some((cooldown, bucket_name)) => {
                    let mut text = "Command on cooldown, try again in ".to_owned();
                    let num = u64_to_string(cooldown as u64);
                    text.append(num.as_str());
                    text.append(" seconds");
                    proof {
                        assert(text@ =~= cooldown_text(cooldown as int));
                    }
                    Ok((ProcessResult::Ratelimited(bucket_name), Some(text)))
                },
                None => Ok((ProcessResult::Success, None)),
            }
        },
        None => Ok((ProcessResult::Success, None)),
    }
}


/// What kind of value a command option takes.
pub enum OptionKind {
    Integer { choices: Vec<(String, i64)>, required: bool },
    Boolean { required: bool },
}

/// One option of a slash command definition.
pub struct MyCommandOption {
    pub name: &'static str,
    pub description: &'static str,
    pub help: Option<&'static str>,
    pub kind: OptionKind,
}

/// A partially built option: name and description first, help optional.
pub struct MyCommandOptionBuilder {
    pub name: &'static str,
    pub description: &'static str,
    pub help: Option<&'static str>,
}

impl MyCommandOption {
    pub fn builder(name: &'static str, description: &'static str) -> (r: MyCommandOptionBuilder)
        ensures
            r.name == name,
            r.description == description,
            r.help is None,
    {
        MyCommandOptionBuilder { name, description, help: None }
    }
}

impl MyCommandOptionBuilder {
    pub fn help(self, help: &'static str) -> (r: MyCommandOptionBuilder)
        ensures
            r.name == self.name,
            r.description == self.description,
            r.help matches Some(h) && h == help,
    {
        MyCommandOptionBuilder { help: Some(help), ..self }
    }

    pub fn integer(self, choices: Vec<(String, i64)>, required: bool) -> (r: MyCommandOption)
        ensures
            r.name == self.name,
            r.description == self.description,
            r.help == self.help,
            r.kind matches OptionKind::Integer { choices: c, required: q } && c == choices && q
                == required,
    {
        MyCommandOption {
            name: self.name,
            description: self.description,
            help: self.help,
            kind: OptionKind::Integer { choices, required },
        }
    }

    pub fn boolean(self, required: bool) -> (r: MyCommandOption)
        ensures
            r.name == self.name,
            r.description == self.description,
            r.help == self.help,
            r.kind matches OptionKind::Boolean { required: q } && q == required,
    {
        MyCommandOption {
            name: self.name,
            description: self.description,
            help: self.help,
            kind: OptionKind::Boolean { required },
        }
    }
}

/// A slash command definition.
pub struct MyCommand {
    pub name: &'static str,
    pub description: &'static str,
    pub help: Option<&'static str>,
    pub options: Vec<MyCommandOption>,
}

impl MyCommand {
    pub fn new(name: &'static str, description: &'static str) -> (r: MyCommand)
        ensures
            r.name == name,
            r.description == description,
            r.help is None,
            r.options@ == Seq::<MyCommandOption>::empty(),
    {
        MyCommand { name, description, help: None, options: Vec::new() }
    }

    pub fn help(self, help: &'static str) -> (r: MyCommand)
        ensures
            r.name == self.name,
            r.description == self.description,
            r.help matches Some(h) && h == help,
            r.options == self.options,
    {
        MyCommand { help: Some(help), ..self }
    }

    pub fn options(self, options: Vec<MyCommandOption>) -> (r: MyCommand)
        ensures
            r.name == self.name,
            r.description == self.description,
            r.help == self.help,
            r.options == options,
    {
        MyCommand { options, ..self }
    }
}

/// One option value delivered with a slash command.
pub enum CommandOption {
    Str { name: String, value: String },
    Int { name: String, value: i64 },
    Bool { name: String, value: bool },
    Sub { name: String },
}

} // verus!
