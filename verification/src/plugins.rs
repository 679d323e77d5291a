//! A closed registry of processing stages over prompts.
//!
//! The stages form a fixed set of tagged variants dispatched through a
//! registry keyed by name, in registration order.  Each stage is a pure
//! text transformation, specified exactly.

use vstd::prelude::*;
use crate::models::AppError;
use crate::textutil::str_eq;

verus! {

/// One processing stage: a name, a text transformation, and a switch.
pub trait Plugin: Sized {
    /// The stage's registry name.
    spec fn spec_name(&self) -> Seq<char>;

    /// What the stage turns an input into.
    spec fn spec_process(&self, input: Seq<char>) -> Seq<char>;

    /// Whether the stage is switched on.
    spec fn spec_enabled(&self) -> bool;

    /// The registry name.
    fn name(&self) -> (r: &str)
        ensures
            r@ == self.spec_name(),
    ;

    /// Transforms one input; the stages here never fail.
    fn process(&self, input: &str) -> (r: Result<String, AppError>)
        ensures
            r matches Ok(s) && s@ == self.spec_process(input@),
    ;

    /// Whether the stage is switched on.
    fn is_enabled(&self) -> (r: bool)
        ensures
            r == self.spec_enabled(),
    ;
}

/// Marks its input as translated into the target language.
pub struct TranslatorPlugin {
    pub enabled: bool,
    pub target_language: String,
}

impl TranslatorPlugin {
    /// An enabled translator for `target_language`.
    pub fn new(target_language: String) -> (r: TranslatorPlugin)
        ensures
            r.enabled == true,
            r.target_language == target_language,
    {
        TranslatorPlugin { enabled: true, target_language }
    }
}

impl Plugin for TranslatorPlugin {
    open spec fn spec_name(&self) -> Seq<char> {
        "Translator"@
    }

    open spec fn spec_process(&self, input: Seq<char>) -> Seq<char> {
        "[Translated to "@ + self.target_language@ + "]: "@ + input
    }

    open spec fn spec_enabled(&self) -> bool {
        self.enabled
    }

    fn name(&self) -> (r: &str) {
        "Translator"
    }

    fn process(&self, input: &str) -> (r: Result<String, AppError>) {
        let mut out = String::from_str("[Translated to ");
        out.append(self.target_language.as_str());
        out.append("]: ");
        out.append(input);
        Ok(out)
    }

    fn is_enabled(&self) -> (r: bool) {
        self.enabled
    }
}

/// Cuts its input down to a maximum length, marking the cut.
pub struct SummarizerPlugin {
    pub enabled: bool,
    pub max_length: usize,
}

impl SummarizerPlugin {
    /// An enabled summarizer that keeps at most `max_length` characters.
    pub fn new(max_length: usize) -> (r: SummarizerPlugin)
        ensures
            r.enabled == true,
            r.max_length == max_length,
    {
        SummarizerPlugin { enabled: true, max_length }
    }
}

impl Plugin for SummarizerPlugin {
    open spec fn spec_name(&self) -> Seq<char> {
        "Summarizer"@
    }

    open spec fn spec_process(&self, input: Seq<char>) -> Seq<char> {
        if input.len() <= self.max_length {
            input
        } else {
            input.take(self.max_length as int) + "..."@
        }
    }

    open spec fn spec_enabled(&self) -> bool {
        self.enabled
    }

    fn name(&self) -> (r: &str) {
        "Summarizer"
    }

    fn process(&self, input: &str) -> (r: Result<String, AppError>) {
        if input.unicode_len() <= self.max_length {
            Ok(input.to_owned())
        } else {
            let head = input.substring_char(0, self.max_length);
            let mut out = head.to_owned();
            out.append("...");
            proof {
                assert(input@.subrange(0, self.max_length as int) =~= input@.take(
                    self.max_length as int,
                ));
            }
            Ok(out)
        }
    }

    fn is_enabled(&self) -> (r: bool) {
        self.enabled
    }
}

/// The closed set of stages the registry can hold.
pub enum PluginEntry {
    Translator(TranslatorPlugin),
    Summarizer(SummarizerPlugin),
}

impl PluginEntry {
    /// The registry name of the stage.
    pub open spec fn entry_name(&self) -> Seq<char> {
        match self {
            PluginEntry::Translator(p) => p.spec_name(),
            PluginEntry::Summarizer(p) => p.spec_name(),
        }
    }

    /// What the stage turns an input into.
    pub open spec fn entry_process(&self, input: Seq<char>) -> Seq<char> {
        match self {
            PluginEntry::Translator(p) => p.spec_process(input),
            PluginEntry::Summarizer(p) => p.spec_process(input),
        }
    }

    /// Whether the stage is switched on.
    pub open spec fn entry_enabled(&self) -> bool {
        match self {
            PluginEntry::Translator(p) => p.spec_enabled(),
            PluginEntry::Summarizer(p) => p.spec_enabled(),
        }
    }

    /// The registry name.
    pub fn name(&self) -> (r: &str)
        ensures
            r@ == self.entry_name(),
    {
        match self {
            PluginEntry::Translator(p) => p.name(),
            PluginEntry::Summarizer(p) => p.name(),
        }
    }

    /// Transforms one input through this stage.
    pub fn process(&self, input: &str) -> (r: Result<String, AppError>)
        ensures
            r matches Ok(s) && s@ == self.entry_process(input@),
    {
        match self {
            PluginEntry::Translator(p) => p.process(input),
            PluginEntry::Summarizer(p) => p.process(input),
        }
    }

    /// Whether the stage is switched on.
    pub fn is_enabled(&self) -> (r: bool)
        ensures
            r == self.entry_enabled(),
    {
        match self {
            PluginEntry::Translator(p) => p.is_enabled(),
            PluginEntry::Summarizer(p) => p.is_enabled(),
        }
    }
}

/// What one stage does to the text as the chain passes through it: a
/// disabled stage is skipped.
pub open spec fn spec_step(p: PluginEntry, x: Seq<char>) -> Seq<char> {
    if p.entry_enabled() {
        p.entry_process(x)
    } else {
        x
    }
}

/// The text after the whole chain has run, in registry order.
pub open spec fn spec_chain(plugins: Seq<PluginEntry>, x: Seq<char>) -> Seq<char>
    decreases plugins.len(),
{
    if plugins.len() == 0 {
        x
    } else {
        spec_chain(plugins.drop_first(), spec_step(plugins[0], x))
    }
}

/// What registration does to the registry: the first stage of the same
/// name is replaced in place; a new name joins at the end.
pub open spec fn spec_register(s: Seq<PluginEntry>, p: PluginEntry) -> Seq<PluginEntry>
    decreases s.len(),
{
    if s.len() == 0 {
        seq![p]
    } else if s[0].entry_name() == p.entry_name() {
        seq![p] + s.drop_first()
    } else {
        seq![s[0]] + spec_register(s.drop_first(), p)
    }
}

/// The registry of stages, keyed by name, in registration order.
pub struct PluginManager {
    plugins: Vec<PluginEntry>,
}

impl View for PluginManager {
    type V = Seq<PluginEntry>;

    closed spec fn view(&self) -> Seq<PluginEntry> {
        self.plugins@
    }
}

impl PluginManager {
    /// The empty registry.
    pub fn new() -> (r: PluginManager)
        ensures
            r@ == Seq::<PluginEntry>::empty(),
    {
        PluginManager { plugins: Vec::new() }
    }

    /// Registers a stage under its own name: a stage of the same name is
    /// replaced in place, anything else joins at the end.
    pub fn register_plugin(&mut self, plugin: PluginEntry)
        ensures
            final(self)@ == spec_register(old(self)@, plugin),
    {
        let ghost orig = self.plugins@;
        let mut i: usize = 0;
        proof {
            assert(orig == old(self)@);
            assert(orig.skip(0) =~= orig);
            assert(orig.take(0) + spec_register(orig.skip(0), plugin) =~= spec_register(
                orig,
                plugin,
            ));
        }
        while i < self.plugins.len()
            invariant
                orig == old(self)@,
                self.plugins@ == orig,
                i <= orig.len(),
                spec_register(orig, plugin) == orig.take(i as int) + spec_register(
                    orig.skip(i as int),
                    plugin,
                ),
        decreases orig.len() - i,
        {
            proof {
                assert(orig.skip(i as int)[0] == orig[i as int]);
                assert(orig.skip(i as int).drop_first() =~= orig.skip(i + 1));
            }
            if str_eq(self.plugins[i].name(), plugin.name()) {
                proof {
                    assert(spec_register(orig.skip(i as int), plugin) == seq![plugin]
                        + orig.skip(i + 1));
                }
                self.plugins.set(i, plugin);
                proof {
                    assert(self.plugins@ =~= orig.take(i as int) + (seq![plugin] + orig.skip(
                        i + 1,
                    )));
                }
                return ;
            }
            proof {
                assert(orig.take(i + 1) =~= orig.take(i as int) + seq![orig[i as int]]);
                assert(orig.take(i as int) + (seq![orig[i as int]] + spec_register(
                    orig.skip(i + 1),
                    plugin,
                )) =~= orig.take(i + 1) + spec_register(orig.skip(i + 1), plugin));
            }
            i += 1;
        }
        proof {
            assert(orig.skip(orig.len() as int) =~= Seq::<PluginEntry>::empty());
            assert(spec_register(orig.skip(orig.len() as int), plugin) == seq![plugin]);
        }
        self.plugins.push(plugin);
        proof {
            assert(orig.take(orig.len() as int) =~= orig);
            assert(self.plugins@ =~= orig + seq![plugin]);
        }
    }

    /// Runs the input through every enabled stage, in registry order.
    pub fn process_with_plugins(&self, input: &str) -> (r: Result<String, AppError>)
        ensures
            r matches Ok(s) && s@ == spec_chain(self@, input@),
    {
        let mut cur = input.to_owned();
        let mut i: usize = 0;
        proof {
            assert(self@.skip(0) =~= self@);
        }
        while i < self.plugins.len()
            invariant
                i <= self.plugins@.len(),
                self@ == self.plugins@,
                spec_chain(self@, input@) == spec_chain(self@.skip(i as int), cur@),
            decreases self.plugins@.len() - i,
        {
            proof {
                assert(self@.skip(i as int)[0] == self@[i as int]);
                assert(self@.skip(i as int).drop_first() =~= self@.skip(i + 1));
            }
            if self.plugins[i].is_enabled() {
                cur = match self.plugins[i].process(cur.as_str()) {
                    Ok(next) => next,
                    Err(e) => {
                        return Err(e);
                    },
                };
            }
            i += 1;
        }
        proof {
            assert(self@.skip(self@.len() as int) =~= Seq::<PluginEntry>::empty());
        }
        Ok(cur)
    }

    /// The registered names, in registry order.
    pub fn get_plugin_names(&self) -> (r: Vec<&str>)
        ensures
            r@.len() == self@.len(),
            forall|i: int| 0 <= i < r@.len() ==> (#[trigger] r@[i])@ == self@[i].entry_name(),
    {
        let mut out: Vec<&str> = Vec::new();
        let mut i: usize = 0;
        while i < self.plugins.len()
            invariant
                i <= self.plugins@.len(),
                self@ == self.plugins@,
                out@.len() == i,
                forall|j: int| 0 <= j < i ==> (#[trigger] out@[j])@ == self@[j].entry_name(),
            decreases self.plugins@.len() - i,
        {
            out.push(self.plugins[i].name());
            i += 1;
        }
        out
    }
}

} // verus!
