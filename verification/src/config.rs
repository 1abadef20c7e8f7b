//! Per-guild configuration and the process-wide store it lives in.
//!
//! The store is filled from persistent storage at startup (one writer path)
//! and read by every request task; the runtime itself only ever reads the
//! authority list and flips the `modified` marker for the next flush.

use vstd::prelude::*;
use std::collections::HashMap;

verus! {

broadcast use vstd::std_specs::hash::group_hash_axioms;

/// One guild's settings.
pub struct GuildConfig {
    pub with_lyrics: bool,
    pub prefixes: Vec<String>,
    pub authorities: Vec<u64>,
    pub modified: bool,
}

impl Default for GuildConfig {
    /// Lyrics on, the two stock prefixes, no authority roles, and marked
    /// modified so the next flush persists it.
    fn default() -> (c: GuildConfig)
        ensures
            c.with_lyrics == true,
            c.prefixes@.len() == 2,
            c.prefixes@[0]@ == "<"@,
            c.prefixes@[1]@ == "!!"@,
            c.authorities@ == Seq::<u64>::empty(),
            c.modified == true,
    {
        let mut prefixes: Vec<String> = Vec::new();
        prefixes.push("<".to_owned());
        prefixes.push("!!".to_owned());
        GuildConfig {
            with_lyrics: true,
            prefixes,
            authorities: Vec::new(),
            modified: true,
        }
    }
}

/// All guild configurations currently in memory.
pub struct GuildConfigStore {
    configs: HashMap<u64, GuildConfig>,
}

impl GuildConfigStore {
    /// The authority roles configured for a guild, in configured order; a
    /// guild without a stored config has none.
    pub closed spec fn spec_authorities(&self, guild_id: u64) -> Seq<u64> {
        if self.configs@.dom().contains(guild_id) {
            self.configs@[guild_id].authorities@
        } else {
            Seq::empty()
        }
    }

    pub closed spec fn contains(&self, guild_id: u64) -> bool {
        self.configs@.dom().contains(guild_id)
    }

    pub closed spec fn config_of(&self, guild_id: u64) -> GuildConfig
        recommends
            self.contains(guild_id),
    {
        self.configs@[guild_id]
    }

    pub fn new() -> (s: GuildConfigStore)
        ensures
            forall|g: u64| !(#[trigger] s.contains(g)),
            forall|g: u64| #[trigger] s.spec_authorities(g) == Seq::<u64>::empty(),
    {
        GuildConfigStore { configs: HashMap::new() }
    }

    /// Installs or replaces one guild's configuration.
    pub fn upsert(&mut self, guild_id: u64, config: GuildConfig)
        ensures
            final(self).contains(guild_id),
            final(self).config_of(guild_id) == config,
            final(self).spec_authorities(guild_id) == config.authorities@,
            forall|g: u64| g != guild_id ==> #[trigger] final(self).contains(g) == old(
                self,
            ).contains(g),
            forall|g: u64|
                g != guild_id ==> #[trigger] final(self).spec_authorities(g) == old(
                    self,
                ).spec_authorities(g),
            forall|g: u64|
                g != guild_id && old(self).contains(g) ==> #[trigger] final(self).config_of(g)
                    == old(self).config_of(g),
    {
        self.configs.insert(guild_id, config);
    }

    pub fn get(&self, guild_id: u64) -> (r: Option<&GuildConfig>)
        ensures
            r is Some <==> self.contains(guild_id),
            r is Some ==> *r->Some_0 == self.config_of(guild_id),
    {
        self.configs.get(&guild_id)
    }

    /// Copies out the guild's authority role list, in configured order.
    pub fn authority_roles(&self, guild_id: u64) -> (r: Vec<u64>)
        ensures
            r@ == self.spec_authorities(guild_id),
    {
        let mut out: Vec<u64> = Vec::new();
        match self.configs.get(&guild_id) {
            Some(config) => {
                let mut i: usize = 0;
                while i < config.authorities.len()
                    invariant
                        i <= config.authorities@.len(),
                        out@ =~= config.authorities@.take(i as int),
                    decreases config.authorities@.len() - i,
                {
                    let v = config.authorities[i];
                    out.push(v);
                    i = i + 1;
                }
                proof {
                    assert(config.authorities@.take(config.authorities@.len() as int)
                        =~= config.authorities@);
                }
            },
            None => {},
        }
        out
    }
}

} // verus!
