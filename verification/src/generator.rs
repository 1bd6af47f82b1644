//! The state of a generation run and the routing of text to the sections.

use vstd::prelude::*;
use crate::section::Section;
use crate::staging::{
    lemma_read_for_output, lemma_set_level, lemma_wf_is_kept, lemma_write_is_kept, ModWriter,
    ModWriterView,
};

verus! {

/// Mathematical model of [`ModWriters`]: one writer per section.
pub ghost struct ModWritersView {
    pub root: ModWriterView,
    pub types: ModWriterView,
    pub messages: ModWriterView,
    pub port_types: ModWriterView,
    pub bindings: ModWriterView,
}

impl ModWritersView {
    /// The writer of `section`.
    pub open spec fn get(self, section: Section) -> ModWriterView {
        match section {
            Section::Root => self.root,
            Section::Types => self.types,
            Section::Messages => self.messages,
            Section::PortTypes => self.port_types,
            Section::Bindings => self.bindings,
        }
    }

    /// The same writers, but for that of `section`, which is `writer`.
    pub open spec fn insert(self, section: Section, writer: ModWriterView) -> Self {
        match section {
            Section::Root => ModWritersView { root: writer, ..self },
            Section::Types => ModWritersView { types: writer, ..self },
            Section::Messages => ModWritersView { messages: writer, ..self },
            Section::PortTypes => ModWritersView { port_types: writer, ..self },
            Section::Bindings => ModWritersView { bindings: writer, ..self },
        }
    }

    /// A fresh writer for each section.
    pub open spec fn init() -> Self {
        ModWritersView {
            root: ModWriterView::new(Section::Root),
            types: ModWriterView::new(Section::Types),
            messages: ModWriterView::new(Section::Messages),
            port_types: ModWriterView::new(Section::PortTypes),
            bindings: ModWriterView::new(Section::Bindings),
        }
    }

    /// Every section finished: its open levels closed, its deferred queue
    /// flushed, its module closed.
    pub open spec fn read_for_output(self) -> Self {
        ModWritersView {
            root: self.root.read_for_output(),
            types: self.types.read_for_output(),
            messages: self.messages.read_for_output(),
            port_types: self.port_types.read_for_output(),
            bindings: self.bindings.read_for_output(),
        }
    }

    /// The final text of each section, in the order in which the sections
    /// are put out: the preamble, then the modules of the types, the messages,
    /// the interfaces and the bindings.
    pub open spec fn final_stages(self) -> Seq<Seq<char>> {
        seq![
            self.root.final_stage,
            self.types.final_stage,
            self.messages.final_stage,
            self.port_types.final_stage,
            self.bindings.final_stage,
        ]
    }
}

/// The writers of the five sections. Each section has exactly one, and the
/// sections are always walked in the same order.
pub struct ModWriters {
    root: ModWriter,
    types: ModWriter,
    messages: ModWriter,
    port_types: ModWriter,
    bindings: ModWriter,
}

impl View for ModWriters {
    type V = ModWritersView;

    closed spec fn view(&self) -> ModWritersView {
        ModWritersView {
            root: self.root@,
            types: self.types@,
            messages: self.messages@,
            port_types: self.port_types@,
            bindings: self.bindings@,
        }
    }
}

impl ModWriters {
    /// The writer of `section`.
    pub fn get(&self, section: Section) -> (writer: &ModWriter)
        ensures
            writer@ == self@.get(section),
    {
        match section {
            Section::Root => &self.root,
            Section::Types => &self.types,
            Section::Messages => &self.messages,
            Section::PortTypes => &self.port_types,
            Section::Bindings => &self.bindings,
        }
    }

    /// The writer of `section`, to be changed in place.
    pub fn get_mut(&mut self, section: Section) -> (writer: &mut ModWriter)
        ensures
            writer@ == old(self)@.get(section),
            final(self)@ == old(self)@.insert(section, final(writer)@),
    {
        match section {
            Section::Root => &mut self.root,
            Section::Types => &mut self.types,
            Section::Messages => &mut self.messages,
            Section::PortTypes => &mut self.port_types,
            Section::Bindings => &mut self.bindings,
        }
    }

    /// Finishes every section and returns the text of each, in output
    /// order: all that was written to a section is in its text.
    pub fn read_for_output(&mut self) -> (out: Vec<String>)
        ensures
            final(self)@ == old(self)@.read_for_output(),
            out.len() == 5,
            forall|i: int| 0 <= i < 5 ==> (#[trigger] out[i])@ == final(self)@.final_stages()[i],
    {
        let mut out: Vec<String> = Vec::new();
        out.push(self.root.read_for_output());
        out.push(self.types.read_for_output());
        out.push(self.messages.read_for_output());
        out.push(self.port_types.read_for_output());
        out.push(self.bindings.read_for_output());
        out
    }
}

/// Mathematical model of a [`FileWriter`].
pub ghost struct FileWriterView {
    /// The directory against which file names are resolved.
    pub base_path: Seq<char>,
    /// The section that receives what is written.
    pub current_section: Section,
    /// The writers of the sections.
    pub mod_writers: ModWritersView,
    /// The current nesting level.
    pub level: nat,
    /// The target namespace of the schema that was entered last.
    pub target_name_space: Option<Seq<char>>,
}

/// The preamble of the generated file.
pub open spec fn preamble() -> Seq<char> {
    "use yaserde::{{YaSerialize, YaDeserialize}};\n            use std::io::{Read, Write};\n            use soap_client::soap::Header;\n            use soap_client::envelop;\n            \n            "@
}

impl FileWriterView {
    /// The state in which every run starts.
    pub open spec fn initial() -> Self {
        FileWriterView {
            base_path: Seq::empty(),
            current_section: Section::Root,
            mod_writers: ModWritersView::init(),
            level: 0,
            target_name_space: None,
        }
    }

    /// The writer of the current section.
    pub open spec fn current(self) -> ModWriterView {
        self.mod_writers.get(self.current_section)
    }

    /// The same state, but for the writer of the current section.
    pub open spec fn with_current(self, writer: ModWriterView) -> Self {
        FileWriterView {
            mod_writers: self.mod_writers.insert(self.current_section, writer),
            ..self
        }
    }

    /// Writes `buf` to the current section at the current level.
    pub open spec fn write(self, buf: Seq<char>) -> Self {
        self.with_current(self.current().write(buf, self.level))
    }

    /// Queues `buf` in the current section.
    pub open spec fn delayed_write(self, buf: Seq<char>) -> Self {
        self.with_current(self.current().delayed_write(buf))
    }

    /// Flushes the deferred queue of the current section.
    pub open spec fn flush_delayed_buffer(self) -> Self {
        self.with_current(self.current().flush_delayed_buffer())
    }

    /// Marks `type_def` as seen in the current section.
    pub open spec fn seen_type(self, type_def: Seq<char>) -> Self {
        self.with_current(self.current().seen_type(type_def))
    }

    /// Forgets the seen signatures of the current section.
    pub open spec fn reset_defined_types(self) -> Self {
        self.with_current(self.current().reset_defined_types())
    }

    /// Whether `type_def` was marked as seen in the current section.
    pub open spec fn have_seen_type(self, type_def: Seq<char>) -> bool {
        self.current().have_seen_type(type_def)
    }

    /// Changes the nesting level, of the run and of the current section.
    pub open spec fn set_level(self, level: nat) -> Self {
        let moved = FileWriterView { level, ..self };
        moved.with_current(moved.current().set_level(level))
    }

    /// Opens one more nesting level.
    pub open spec fn inc_level(self) -> Self {
        self.set_level(self.level + 1)
    }

    /// Closes the innermost nesting level.
    pub open spec fn dec_level(self) -> Self
        recommends
            self.level > 0,
    {
        self.set_level((self.level - 1) as nat)
    }

    /// Makes `target` the current section. No section loses anything.
    pub open spec fn check_section(self, target: Section) -> Self {
        FileWriterView { current_section: target, ..self }
    }

    /// Writes the preamble.
    pub open spec fn print_header(self) -> Self {
        self.write(preamble())
    }

    /// Resolves file names against `base_path` from now on.
    pub open spec fn with_base_path(self, base_path: Seq<char>) -> Self {
        FileWriterView { base_path, ..self }
    }

    /// Takes `name_space` as the target namespace from now on.
    pub open spec fn with_target_name_space(self, name_space: Option<Seq<char>>) -> Self {
        FileWriterView { target_name_space: name_space, ..self }
    }

    /// Whether every write finds its destination: the writer of the current
    /// section stands at the level of the run and has exactly one buffer for
    /// each open level, and the writer of every other section stands at
    /// level 0 with no buffer.
    pub open spec fn staged(self) -> bool {
        &&& self.current().level == self.level
        &&& self.current().buffers.len() == self.level
        &&& forall|section: Section|
            section != self.current_section ==> (#[trigger] self.mod_writers.get(section)).level
                == 0 && self.mod_writers.get(section).buffers.len() == 0
    }

    /// Whether the run stands between two constructs: staged at level 0,
    /// with nothing waiting in the queue of any section.
    pub open spec fn settled(self) -> bool {
        &&& self.staged()
        &&& self.level == 0
        &&& forall|section: Section| (#[trigger] self.mod_writers.get(section)).delayed.len() == 0
    }

    /// Whether no section holds more than one buffer per open level.
    pub open spec fn wf(self) -> bool {
        forall|section: Section| (#[trigger] self.mod_writers.get(section)).wf()
    }

    /// Whether `after` is staged, at the level and in the section of this
    /// state.
    pub open spec fn stays_staged(self, after: Self) -> bool {
        &&& after.staged()
        &&& after.level == self.level
        &&& after.current_section == self.current_section
    }

    /// Every section finished: its open levels closed, its deferred queue
    /// flushed, its module closed.
    pub open spec fn read_for_output(self) -> Self {
        FileWriterView { mod_writers: self.mod_writers.read_for_output(), ..self }
    }
}

/// A run starts staged, at level 0 and with empty queues.
pub proof fn lemma_initial_is_staged()
    ensures
        FileWriterView::initial().staged(),
        FileWriterView::initial().level == 0,
        FileWriterView::initial().settled(),
{
}

/// Whether every section has in `after` the queue that it has in `before`.
pub open spec fn same_queues(before: FileWriterView, after: FileWriterView) -> bool {
    forall|section: Section| (#[trigger] after.mod_writers.get(section)).delayed
        == before.mod_writers.get(section).delayed
}

/// Whether every section but the current one has in `after` the queue that
/// it has in `before`, and the current section is the same.
pub open spec fn same_queues_elsewhere(before: FileWriterView, after: FileWriterView) -> bool {
    &&& after.current_section == before.current_section
    &&& forall|section: Section|
        section != before.current_section ==> (#[trigger] after.mod_writers.get(
            section,
        )).delayed == before.mod_writers.get(section).delayed
}

/// Queues that stay the same elsewhere over two steps stay the same
/// elsewhere over both.
pub proof fn lemma_same_queues_elsewhere_twice(
    before: FileWriterView,
    between: FileWriterView,
    after: FileWriterView,
)
    requires
        same_queues_elsewhere(before, between),
        same_queues_elsewhere(between, after),
    ensures
        same_queues_elsewhere(before, after),
{
    assert forall|section: Section| section != before.current_section implies (
    #[trigger] after.mod_writers.get(section)).delayed == before.mod_writers.get(
        section,
    ).delayed by {
        assert(between.mod_writers.get(section).delayed == before.mod_writers.get(
            section,
        ).delayed);
    }
}

/// Whatever is done to the current section leaves the queues of the other
/// sections as they are.
pub proof fn lemma_routing_keeps_queues_elsewhere(state: FileWriterView, buf: Seq<char>)
    ensures
        same_queues_elsewhere(state, state),
        same_queues_elsewhere(state, state.write(buf)),
        same_queues_elsewhere(state, state.delayed_write(buf)),
        same_queues_elsewhere(state, state.flush_delayed_buffer()),
        same_queues_elsewhere(state, state.seen_type(buf)),
        same_queues_elsewhere(state, state.reset_defined_types()),
{
}

/// Queues that stay the same over two steps stay the same over both.
pub proof fn lemma_same_queues_twice(
    before: FileWriterView,
    between: FileWriterView,
    after: FileWriterView,
)
    requires
        same_queues(before, between),
        same_queues(between, after),
    ensures
        same_queues(before, after),
{
    assert forall|section: Section| (#[trigger] after.mod_writers.get(section)).delayed
        == before.mod_writers.get(section).delayed by {
        assert(between.mod_writers.get(section).delayed == before.mod_writers.get(
            section,
        ).delayed);
    }
}

/// Writing, marking, forgetting, moving the level and changing the section
/// leave every queue as it is.
pub proof fn lemma_routing_keeps_queues(
    state: FileWriterView,
    buf: Seq<char>,
    level: nat,
    target: Section,
)
    ensures
        same_queues(state, state),
        same_queues(state, state.write(buf)),
        same_queues(state, state.seen_type(buf)),
        same_queues(state, state.reset_defined_types()),
        same_queues(state, state.set_level(level)),
        same_queues(state, state.inc_level()),
        state.level > 0 ==> same_queues(state, state.dec_level()),
        same_queues(state, state.check_section(target)),
        same_queues(state, state.with_base_path(buf)),
        same_queues(state, state.with_target_name_space(Some(buf))),
        same_queues(state, state.with_target_name_space(None)),
        same_queues(state, state.print_header()),
{
    lemma_set_level(state.current(), level);
    lemma_set_level(state.current(), state.level + 1);
    if state.level > 0 {
        lemma_set_level(state.current(), (state.level - 1) as nat);
    }
}

/// In a staged state no section holds more than one buffer per open level.
pub proof fn lemma_staged_is_wf(state: FileWriterView)
    requires
        state.staged(),
    ensures
        state.wf(),
{
}

/// Every routing operation keeps at most one buffer per open level in each
/// section.
pub proof fn lemma_routing_keeps_wf(
    state: FileWriterView,
    buf: Seq<char>,
    level: nat,
    target: Section,
)
    requires
        state.wf(),
    ensures
        FileWriterView::initial().wf(),
        state.write(buf).wf(),
        state.delayed_write(buf).wf(),
        state.flush_delayed_buffer().wf(),
        state.seen_type(buf).wf(),
        state.reset_defined_types().wf(),
        state.set_level(level).wf(),
        state.check_section(target).wf(),
        state.read_for_output().wf(),
{
    let writer = state.current();
    assert(writer.wf());
    lemma_wf_is_kept(writer, buf, level);
    lemma_wf_is_kept(writer, buf, state.level);
    assert forall|section: Section| #[trigger]
        FileWriterView::initial().mod_writers.get(section).wf() by {
        lemma_wf_is_kept(writer, buf, level);
    }
    assert forall|section: Section| #[trigger]
        state.read_for_output().mod_writers.get(section).wf() by {
        assert(state.mod_writers.get(section).wf());
        lemma_wf_is_kept(state.mod_writers.get(section), buf, level);
    }
    assert forall|section: Section| #[trigger] state.write(buf).mod_writers.get(section).wf() by {
        assert(state.mod_writers.get(section).wf());
    }
    assert forall|section: Section| #[trigger]
        state.delayed_write(buf).mod_writers.get(section).wf() by {
        assert(state.mod_writers.get(section).wf());
    }
    assert forall|section: Section| #[trigger]
        state.flush_delayed_buffer().mod_writers.get(section).wf() by {
        assert(state.mod_writers.get(section).wf());
    }
    assert forall|section: Section| #[trigger]
        state.seen_type(buf).mod_writers.get(section).wf() by {
        assert(state.mod_writers.get(section).wf());
    }
    assert forall|section: Section| #[trigger]
        state.reset_defined_types().mod_writers.get(section).wf() by {
        assert(state.mod_writers.get(section).wf());
    }
    assert forall|section: Section| #[trigger]
        state.set_level(level).mod_writers.get(section).wf() by {
        assert(state.mod_writers.get(section).wf());
    }
    assert forall|section: Section| #[trigger]
        state.check_section(target).mod_writers.get(section).wf() by {
        assert(state.mod_writers.get(section).wf());
    }
}

/// Whether `after` holds every section but that of `section` at the level
/// and with the buffers with which `before` holds it.
pub open spec fn same_levels_elsewhere(
    before: FileWriterView,
    after: FileWriterView,
    section: Section,
) -> bool {
    forall|other: Section|
        other != section ==> (#[trigger] after.mod_writers.get(other)).level
            == before.mod_writers.get(other).level && after.mod_writers.get(other).buffers
            == before.mod_writers.get(other).buffers
}

/// Writing, queueing, flushing, marking and forgetting keep a state staged,
/// at its level and in its section; so does a change of what the walk
/// remembers.
pub proof fn lemma_routing_keeps_staged(state: FileWriterView, buf: Seq<char>)
    requires
        state.staged(),
    ensures
        state.write(buf).staged(),
        state.delayed_write(buf).staged(),
        state.flush_delayed_buffer().staged(),
        state.seen_type(buf).staged(),
        state.reset_defined_types().staged(),
        state.with_base_path(buf).staged(),
        state.with_target_name_space(Some(buf)).staged(),
        state.with_target_name_space(None).staged(),
        state.print_header().staged(),
{
    let section = state.current_section;
    assert(same_levels_elsewhere(state, state.write(buf), section));
    assert(same_levels_elsewhere(state, state.delayed_write(buf), section));
    assert(same_levels_elsewhere(state, state.flush_delayed_buffer(), section));
    assert(same_levels_elsewhere(state, state.seen_type(buf), section));
    assert(same_levels_elsewhere(state, state.reset_defined_types(), section));
    assert(same_levels_elsewhere(state, state.print_header(), section));
}

/// A staged state stays staged when the level moves by one step, and when
/// the section changes at level 0.
pub proof fn lemma_moves_keep_staged(state: FileWriterView, target: Section)
    requires
        state.staged(),
    ensures
        state.inc_level().staged(),
        state.inc_level().level == state.level + 1,
        state.level > 0 ==> state.dec_level().staged() && state.dec_level().level == state.level
            - 1,
        state.level == 0 ==> state.check_section(target).staged(),
{
    let section = state.current_section;
    lemma_set_level(state.current(), state.level + 1);
    assert(same_levels_elsewhere(state, state.inc_level(), section));
    if state.level > 0 {
        lemma_set_level(state.current(), (state.level - 1) as nat);
        assert(same_levels_elsewhere(state, state.dec_level(), section));
    }
    if state.level == 0 && target != section {
        assert(state.mod_writers.get(target).level == 0);
    }
}

/// Finishing the sections at level 0 keeps a staged state staged, at
/// level 0 and in its section.
pub proof fn lemma_read_for_output_keeps_staged(state: FileWriterView)
    requires
        state.staged(),
        state.level == 0,
    ensures
        state.stays_staged(state.read_for_output()),
{
    let closed = state.read_for_output();
    assert forall|section: Section| #[trigger]
        closed.mod_writers.get(section).level == 0 && closed.mod_writers.get(
            section,
        ).buffers.len() == 0 by {
        lemma_read_for_output(state.mod_writers.get(section));
    }
}

/// A state that stays staged at level 0, with every queue as it was, stays
/// settled.
pub proof fn lemma_settled_is_kept(before: FileWriterView, after: FileWriterView)
    requires
        before.settled(),
        after.staged(),
        after.level == 0,
        same_queues(before, after),
    ensures
        after.settled(),
{
    assert forall|section: Section| (#[trigger] after.mod_writers.get(section)).delayed.len()
        == 0 by {
        assert(before.mod_writers.get(section).delayed.len() == 0);
    }
}

/// Between two constructs, writing, changing the section, changing what
/// the walk remembers and finishing the sections keep a state settled.
pub proof fn lemma_routing_keeps_settled(state: FileWriterView, buf: Seq<char>, target: Section)
    requires
        state.settled(),
    ensures
        state.write(buf).settled(),
        state.check_section(target).settled(),
        state.with_base_path(buf).settled(),
        state.with_target_name_space(Some(buf)).settled(),
        state.with_target_name_space(None).settled(),
        state.print_header().settled(),
        state.read_for_output().settled(),
{
    lemma_routing_keeps_staged(state, buf);
    lemma_moves_keep_staged(state, target);
    lemma_routing_keeps_queues(state, buf, 0, target);
    lemma_settled_is_kept(state, state.write(buf));
    lemma_settled_is_kept(state, state.check_section(target));
    lemma_settled_is_kept(state, state.with_base_path(buf));
    lemma_settled_is_kept(state, state.with_target_name_space(Some(buf)));
    lemma_settled_is_kept(state, state.with_target_name_space(None));
    lemma_settled_is_kept(state, state.print_header());
    lemma_read_for_output_keeps_staged(state);
    let closed = state.read_for_output();
    assert forall|section: Section| (#[trigger] closed.mod_writers.get(section)).delayed.len()
        == 0 by {
        lemma_read_for_output(state.mod_writers.get(section));
    }
}

/// Finishing the sections of a settled state only closes the modules: the
/// text of each section is its final text and the closing of its module.
pub proof fn lemma_read_for_output_of_settled(state: FileWriterView, section: Section)
    requires
        state.settled(),
    ensures
        state.read_for_output().mod_writers.get(section).final_stage == state.mod_writers.get(
            section,
        ).final_stage + state.mod_writers.get(section).footer(),
{
    let writer = state.mod_writers.get(section);
    assert(writer.level == 0 && writer.buffers.len() == 0 && writer.delayed.len() == 0);
    crate::staging::lemma_read_for_output_of_settled(writer);
}

/// In a staged state no write is dropped: what is written lengthens the
/// final text of the current section at level 0, and the buffer of the
/// current level below it.
pub proof fn lemma_staged_write_is_kept(state: FileWriterView, buf: Seq<char>)
    requires
        state.staged(),
    ensures
        state.level == 0 ==> state.write(buf).current().final_stage
            == state.current().final_stage + buf,
        state.level > 0 ==> state.write(buf).current().buffers[state.level - 1]
            == state.current().buffers[state.level - 1] + buf,
{
    lemma_write_is_kept(state.current(), buf, state.level);
}

/// The sections accumulate independently: whatever is done to the current
/// section leaves every other section as it is, and making another section
/// current changes no section at all.
pub proof fn lemma_sections_are_independent(
    state: FileWriterView,
    other: Section,
    buf: Seq<char>,
    level: nat,
)
    requires
        other != state.current_section,
    ensures
        state.write(buf).mod_writers.get(other) == state.mod_writers.get(other),
        state.delayed_write(buf).mod_writers.get(other) == state.mod_writers.get(other),
        state.flush_delayed_buffer().mod_writers.get(other) == state.mod_writers.get(other),
        state.seen_type(buf).mod_writers.get(other) == state.mod_writers.get(other),
        state.reset_defined_types().mod_writers.get(other) == state.mod_writers.get(other),
        state.set_level(level).mod_writers.get(other) == state.mod_writers.get(other),
        state.check_section(other).mod_writers == state.mod_writers,
{
}

/// The state of a generation run: the five section writers, the section and
/// the nesting level that writes go to, and what the walk has to remember.
pub struct FileWriter {
    base_path: String,
    current_section: Section,
    mod_writers: ModWriters,
    level: usize,
    target_name_space: Option<String>,
}

impl View for FileWriter {
    type V = FileWriterView;

    closed spec fn view(&self) -> FileWriterView {
        FileWriterView {
            base_path: self.base_path@,
            current_section: self.current_section,
            mod_writers: self.mod_writers@,
            level: self.level as nat,
            target_name_space: match self.target_name_space {
                Some(name_space) => Some(name_space@),
                None => None,
            },
        }
    }
}

impl Default for FileWriter {
    /// A writer at the start of a run.
    fn default() -> (fw: Self)
        ensures
            fw@ == FileWriterView::initial(),
            fw@.wf(),
            fw@.staged(),
    {
        FileWriter {
            base_path: String::new(),
            current_section: Section::Root,
            mod_writers: FileWriter::init_mod_writers(),
            level: 0,
            target_name_space: None,
        }
    }
}

impl FileWriter {
    /// A fresh writer for each section.
    pub fn init_mod_writers() -> (mod_writers: ModWriters)
        ensures
            mod_writers@ == ModWritersView::init(),
    {
        ModWriters {
            root: ModWriter::new(Section::Root),
            messages: ModWriter::new(Section::Messages),
            types: ModWriter::new(Section::Types),
            port_types: ModWriter::new(Section::PortTypes),
            bindings: ModWriter::new(Section::Bindings),
        }
    }

    /// The current nesting level.
    pub fn level(&self) -> (level: usize)
        ensures
            level == self@.level,
    {
        self.level
    }

    /// The section that receives what is written.
    pub fn current_section(&self) -> (section: Section)
        ensures
            section == self@.current_section,
    {
        self.current_section
    }

    /// The directory against which file names are resolved.
    pub fn base_path(&self) -> (base_path: &str)
        ensures
            base_path@ == self@.base_path,
    {
        self.base_path.as_str()
    }

    /// Whether a target namespace is known.
    pub fn has_target_name_space(&self) -> (has: bool)
        ensures
            has == self@.target_name_space.is_some(),
    {
        self.target_name_space.is_some()
    }

    /// The target namespace of the schema that was entered last.
    pub fn target_name_space(&self) -> (name_space: Option<&str>)
        ensures
            match name_space {
                Some(n) => self@.target_name_space == Some(n@),
                None => self@.target_name_space.is_none(),
            },
    {
        match &self.target_name_space {
            Some(n) => Some(n.as_str()),
            None => None,
        }
    }

    /// Resolves file names against `base_path` from now on.
    pub fn set_base_path(&mut self, base_path: String)
        ensures
            final(self)@ == old(self)@.with_base_path(base_path@),
    {
        self.base_path = base_path;
    }

    /// Takes `name_space` as the target namespace from now on.
    pub fn set_target_name_space(&mut self, name_space: Option<String>)
        ensures
            final(self)@ == old(self)@.with_target_name_space(
                match name_space {
                    Some(n) => Some(n@),
                    None => None,
                },
            ),
    {
        self.target_name_space = name_space;
    }

    /// Writes `buf` to the current section at the current level.
    pub fn write(&mut self, buf: String)
        ensures
            final(self)@ == old(self)@.write(buf@),
    {
        let level = self.level;
        self.mod_writers.get_mut(self.current_section).write(buf, level);
    }

    /// Queues `buf` in the current section.
    pub fn delayed_write(&mut self, buf: String)
        ensures
            final(self)@ == old(self)@.delayed_write(buf@),
    {
        self.mod_writers.get_mut(self.current_section).delayed_write(buf);
    }

    /// Flushes the deferred queue of the current section.
    pub fn flush_delayed_buffer(&mut self)
        ensures
            final(self)@ == old(self)@.flush_delayed_buffer(),
    {
        self.mod_writers.get_mut(self.current_section).flush_delayed_buffer();
    }

    /// Marks `type_def` as seen in the current section.
    pub fn seen_type(&mut self, type_def: String)
        ensures
            final(self)@ == old(self)@.seen_type(type_def@),
    {
        self.mod_writers.get_mut(self.current_section).seen_type(type_def);
    }

    /// Forgets the seen signatures of the current section.
    pub fn reset_defined_types(&mut self)
        ensures
            final(self)@ == old(self)@.reset_defined_types(),
    {
        self.mod_writers.get_mut(self.current_section).reset_defined_types();
    }

    /// Whether `type_def` was marked as seen in the current section.
    pub fn have_seen_type(&mut self, type_def: String) -> (seen: bool)
        ensures
            seen == old(self)@.have_seen_type(type_def@),
            *final(self) == *old(self),
    {
        self.mod_writers.get(self.current_section).have_seen_type(type_def)
    }

    /// Changes the nesting level, of the run and of the current section.
    pub fn set_level(&mut self, level: usize)
        ensures
            final(self)@ == old(self)@.set_level(level as nat),
    {
        self.level = level;
        self.mod_writers.get_mut(self.current_section).set_level(level);
    }

    /// Opens one more nesting level.
    pub fn inc_level(&mut self)
        requires
            old(self)@.level < usize::MAX,
        ensures
            final(self)@ == old(self)@.inc_level(),
    {
        self.set_level(self.level + 1);
    }

    /// Closes the innermost nesting level.
    pub fn dec_level(&mut self)
        requires
            old(self)@.level > 0,
        ensures
            final(self)@ == old(self)@.dec_level(),
    {
        self.set_level(self.level - 1);
    }

    /// Writes the preamble.
    pub fn print_header(&mut self)
        ensures
            final(self)@ == old(self)@.print_header(),
    {
        self.write(
            "use yaserde::{{YaSerialize, YaDeserialize}};\n            use std::io::{Read, Write};\n            use soap_client::soap::Header;\n            use soap_client::envelop;\n            \n            ".to_string(),
        );
    }

    /// Makes `target` the current section. No section loses anything.
    pub fn check_section(&mut self, target: Section)
        ensures
            final(self)@ == old(self)@.check_section(target),
    {
        if self.current_section != target {
            self.current_section = target;
        }
    }

    /// Finishes every section and returns the text of each, in output
    /// order: all that was written to a section is in its text.
    pub fn read_for_output(&mut self) -> (out: Vec<String>)
        ensures
            final(self)@ == old(self)@.read_for_output(),
            out.len() == 5,
            forall|i: int|
                0 <= i < 5 ==> (#[trigger] out[i])@ == final(self)@.mod_writers.final_stages()[i],
    {
        self.mod_writers.read_for_output()
    }
}

} // verus!
