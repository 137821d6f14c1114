//! Which engine runs the subconscious, as it stands in the configuration.

use crate::text::same;
use vstd::prelude::*;

verus! {

/// The engine of the subconscious.
#[derive(Clone, Copy, Debug, PartialEq, Eq, Structural)]
pub enum SubconsciousEngine {
    /// The local graph.
    Local,
}

impl Default for SubconsciousEngine {
    fn default() -> (r: Self)
        ensures
            r == SubconsciousEngine::Local,
    {
        SubconsciousEngine::Local
    }
}

impl SubconsciousEngine {
    /// The name under which an engine is stored.
    pub open spec fn name(self) -> Seq<char> {
        "local"@
    }

    /// The engine that a stored name stands for. A retired name is still read.
    pub open spec fn named(name: Seq<char>) -> Option<SubconsciousEngine> {
        if name == "local"@ || name == "medulla"@ {
            Some(SubconsciousEngine::Local)
        } else {
            None
        }
    }

    /// The name under which this engine is stored.
    pub fn as_str(&self) -> (r: &'static str)
        ensures
            r@ == self.name(),
    {
        "local"
    }

    /// The engine that a stored name stands for.
    pub fn parse(name: &str) -> (r: Option<SubconsciousEngine>)
        ensures
            r == SubconsciousEngine::named(name@),
    {
        if same(name, "local") || same(name, "medulla") {
            Some(SubconsciousEngine::Local)
        } else {
            None
        }
    }
}

/// The part of the configuration that concerns the subconscious.
#[derive(Clone, Copy, Debug)]
pub struct SubconsciousConfig {
    pub engine: SubconsciousEngine,
}

impl Default for SubconsciousConfig {
    fn default() -> (r: Self)
        ensures
            r.engine == SubconsciousEngine::Local,
    {
        SubconsciousConfig { engine: SubconsciousEngine::Local }
    }
}

impl SubconsciousConfig {
    /// The configuration with the stored engine name, where one is stored. Without one it is the
    /// default, and with a name that stands for no engine there is none.
    pub fn stored(engine: Option<&str>) -> (r: Option<SubconsciousConfig>)
        ensures
            match engine {
                None => r == Some(SubconsciousConfig { engine: SubconsciousEngine::Local }),
                Some(name) => match SubconsciousEngine::named(name@) {
                    Some(known) => r == Some(SubconsciousConfig { engine: known }),
                    None => r is None,
                },
            },
            r is Some <==> configured(
                match engine {
                    Some(name) => Some(name@),
                    None => None,
                },
            ) is Some,
    {
        match engine {
            None => Some(SubconsciousConfig::default()),
            Some(name) => match SubconsciousEngine::parse(name) {
                Some(engine) => Some(SubconsciousConfig { engine }),
                None => None,
            },
        }
    }
}

/// The engine that a configuration names, or the usual one where it names none.
pub open spec fn configured(engine: Option<Seq<char>>) -> Option<SubconsciousEngine> {
    match engine {
        None => Some(SubconsciousEngine::Local),
        Some(name) => SubconsciousEngine::named(name),
    }
}

/// What is stored of an engine is read as that engine, and what is read under a retired name is
/// stored under the supported one.
pub proof fn law_engines_are_stored_under_the_supported_name(
    name: Seq<char>,
    engine: SubconsciousEngine,
)
    ensures
        SubconsciousEngine::named(engine.name()) == Some(engine),
        SubconsciousEngine::named(name) is Some ==> SubconsciousEngine::named(name)->0.name()
            == "local"@,
{
}

/// Two names stand for the engine, the supported one and the retired one, and no other does; it is
/// stored under the supported one.
pub proof fn law_two_names_are_read_and_one_is_stored(name: Seq<char>, engine: SubconsciousEngine)
    ensures
        SubconsciousEngine::named(name) is Some <==> name == "local"@ || name == "medulla"@,
        SubconsciousEngine::named(name) is Some ==> SubconsciousEngine::named(name)->0
            == SubconsciousEngine::Local,
        engine.name() == "local"@,
{
}

/// A configuration is refused exactly where it names an engine by a name that stands for none.
pub proof fn law_a_configuration_is_refused_for_an_unknown_name(name: Seq<char>)
    ensures
        configured(None) is Some,
        configured(Some(name)) is None <==> name != "local"@ && name != "medulla"@,
{
}

} // verus!
