//! Shell configuration: prompt, history capacity, colors, and the alias
//! table. Loading and persisting a configuration file is the embedding
//! program's business; the core only reads and updates these plain values.

use vstd::prelude::*;

verus! {

/// One alias definition: `name` expands to `command`.
pub struct AliasEntry {
    pub name: String,
    pub command: String,
}

/// Shell configuration, handed in by the embedding program. Aliases are an
/// ordered list; the first entry with a given name is the one in force.
pub struct Config {
    pub prompt: String,
    pub history_size: usize,
    pub enable_colors: bool,
    pub aliases: Vec<AliasEntry>,
}

/// The expansion of `name` among `aliases`: the first entry that matches.
pub open spec fn spec_lookup_alias(aliases: Seq<AliasEntry>, name: Seq<char>) -> Option<Seq<char>>
    decreases aliases.len(),
{
    if aliases.len() == 0 {
        None
    } else if aliases[0].name@ == name {
        Some(aliases[0].command@)
    } else {
        spec_lookup_alias(aliases.skip(1), name)
    }
}

proof fn lemma_lookup_alias_remove(aliases: Seq<AliasEntry>, i: int, name: Seq<char>)
    requires
        0 <= i < aliases.len(),
        aliases[i].name@ != name,
    ensures
        spec_lookup_alias(aliases.remove(i), name) == spec_lookup_alias(aliases, name),
    decreases aliases.len(),
{
    if i == 0 {
        assert(aliases.remove(0) =~= aliases.skip(1));
    } else {
        assert(aliases.remove(i).skip(1) =~= aliases.skip(1).remove(i - 1));
        assert(aliases.remove(i)[0] == aliases[0]);
        lemma_lookup_alias_remove(aliases.skip(1), i - 1, name);
    }
}

impl Config {
    /// Looks a command name up in the alias table.
    pub fn lookup_alias(&self, name: &str) -> (r: Option<String>)
        ensures
            match r {
                Some(c) => spec_lookup_alias(self.aliases@, name@) == Some(c@),
                None => spec_lookup_alias(self.aliases@, name@) is None,
            },
    {
        let n: usize = self.aliases.len();
        let mut i: usize = 0;
        proof {
            assert(self.aliases@.skip(0) =~= self.aliases@);
        }
        while i < n
            invariant
                i <= n,
                n == self.aliases@.len(),
                spec_lookup_alias(self.aliases@, name@) == spec_lookup_alias(
                    self.aliases@.skip(i as int),
                    name@,
                ),
            decreases n - i,
        {
            proof {
                assert(self.aliases@.skip(i as int)[0] == self.aliases@[i as int]);
                assert(self.aliases@.skip(i as int).skip(1) =~= self.aliases@.skip(i as int + 1));
            }
            if crate::text::str_eq(self.aliases[i].name.as_str(), name) {
                return Some(self.aliases[i].command.clone());
            }
            i = i + 1;
        }
        None
    }

    /// Installs an alias: a previous definition of the same name is dropped,
    /// and the new one takes effect; every other alias keeps its expansion.
    pub fn set_alias(&mut self, name: String, command: String)
        ensures
            spec_lookup_alias(final(self).aliases@, name@) == Some(command@),
            forall|other: Seq<char>|
                other != name@ ==> #[trigger] spec_lookup_alias(final(self).aliases@, other)
                    == spec_lookup_alias(old(self).aliases@, other),
            final(self).prompt == old(self).prompt,
            final(self).history_size == old(self).history_size,
            final(self).enable_colors == old(self).enable_colors,
    {
        let n: usize = self.aliases.len();
        let mut i: usize = 0;
        let ghost orig = self.aliases@;
        while i < n && !crate::text::str_eq(self.aliases[i].name.as_str(), name.as_str())
            invariant
                i <= n,
                self.aliases@ == orig,
                n == orig.len(),
            decreases n - i,
        {
            i = i + 1;
        }
        if i < n {
            let ghost pre = self.aliases@;
            self.aliases.remove(i);
            proof {
                assert forall|other: Seq<char>| other != name@ implies #[trigger]
                    spec_lookup_alias(self.aliases@, other) == spec_lookup_alias(pre, other) by {
                    lemma_lookup_alias_remove(pre, i as int, other);
                }
            }
        }
        let ghost gname = name@;
        let ghost gcmd = command@;
        let ghost trimmed = self.aliases@;
        self.aliases.insert(0, AliasEntry { name, command });
        proof {
            assert(self.aliases@.skip(1) =~= trimmed);
            assert(self.aliases@[0].name@ == gname);
            assert(spec_lookup_alias(self.aliases@, gname) == Some(gcmd));
            assert forall|other: Seq<char>| other != gname implies #[trigger] spec_lookup_alias(
                self.aliases@,
                other,
            ) == spec_lookup_alias(trimmed, other) by {}
        }
    }
}

impl Default for Config {
    /// The stock configuration: a colored prompt showing the working
    /// directory, room for a thousand history entries, and no aliases.
    fn default() -> (c: Config)
        ensures
            c.prompt@ == "➜ {cwd} $ "@,
            c.history_size == 1000,
            c.enable_colors == true,
            c.aliases@.len() == 0,
    {
        Config {
            prompt: String::from_str("➜ {cwd} $ "),
            history_size: 1000,
            enable_colors: true,
            aliases: Vec::new(),
        }
    }
}

} // verus!
