//! Leveled staging of generated text for one output section.
//!
//! Text written at nesting level 0 is final at once. Text written at a
//! deeper level waits in the buffer of that level. When the level is
//! closed, its text goes ahead of the text that waits one level up, and
//! becomes final where no level is left open: a nested construct precedes
//! the construct that encloses it. There is never more than one buffer per
//! open level. A separate queue holds deferred text until it is flushed
//! into the buffer of the current level. Reading a section for output
//! closes every level and flushes the queue, so that nothing written is
//! left out.

use vstd::prelude::*;
use vstd::string::*;
use crate::section::Section;

verus! {

/// Mathematical model of a [`ModWriter`].
pub ghost struct ModWriterView {
    /// Current nesting level; 0 means that no construct is open.
    pub level: nat,
    /// The section that this writer collects.
    pub section: Section,
    /// The buffers of the open nesting levels, at most one per level;
    /// entry `i` receives the text written at level `i + 1`.
    pub buffers: Seq<Seq<char>>,
    /// Deferred text that waits for the next flush.
    pub delayed: Seq<char>,
    /// Text that is final for this section.
    pub final_stage: Seq<char>,
    /// Signatures that were marked as seen since the last reset.
    pub defined_types: Seq<Seq<char>>,
}

/// The first line of every generated module body.
pub open spec fn import_line() -> Seq<char> {
    "use yaserde::{{YaSerialize, YaDeserialize}};\n\n"@
}

/// The text that closes a generated module, and a generated record.
pub open spec fn closing_text() -> Seq<char> {
    "}\n\n"@
}

/// The text that opens the generated module `mod_name`.
pub open spec fn mod_header_text(mod_name: Seq<char>) -> Seq<char> {
    "pub mod "@ + mod_name + " {\n"@ + import_line() + "use super::*;\n\n"@
}

/// The buffers joined from the innermost (last) to the outermost (first).
pub open spec fn unwound(buffers: Seq<Seq<char>>) -> Seq<char>
    decreases buffers.len(),
{
    if buffers.len() == 0 {
        Seq::empty()
    } else {
        buffers.last() + unwound(buffers.drop_last())
    }
}

impl ModWriterView {
    /// A writer for `section` that holds nothing.
    pub open spec fn empty(section: Section) -> Self {
        ModWriterView {
            level: 0,
            section,
            buffers: Seq::empty(),
            delayed: Seq::empty(),
            final_stage: Seq::empty(),
            defined_types: Seq::empty(),
        }
    }

    /// A fresh writer for `section`: empty but for the header of its module.
    pub open spec fn new(section: Section) -> Self {
        match section.mod_name() {
            None => Self::empty(section),
            Some(name) => Self::empty(section).print_mod_header(name),
        }
    }

    /// Whether text written at `level` has a destination.
    pub open spec fn has_buffer(self, level: nat) -> bool {
        level <= self.buffers.len()
    }

    /// Appends `buf` at `level`: to the final text at level 0, to the buffer
    /// of that level otherwise. Text for a level without a buffer is dropped.
    pub open spec fn write(self, buf: Seq<char>, level: nat) -> Self {
        if level == 0 {
            ModWriterView { final_stage: self.final_stage + buf, ..self }
        } else if self.has_buffer(level) {
            ModWriterView {
                buffers: self.buffers.update(level - 1, self.buffers[level - 1] + buf),
                ..self
            }
        } else {
            self
        }
    }

    /// Appends `buf` to the deferred queue.
    pub open spec fn delayed_write(self, buf: Seq<char>) -> Self {
        ModWriterView { delayed: self.delayed + buf, ..self }
    }

    /// Whether there is at most one buffer per open level. A new writer is
    /// of this kind, and every operation keeps it so.
    pub open spec fn wf(self) -> bool {
        self.buffers.len() <= self.level
    }

    /// Closes the innermost buffer: its text goes ahead of the text in the
    /// buffer beneath it, so that what was nested stands before what
    /// encloses it; with no buffer beneath, it goes behind the final text.
    pub open spec fn fold_top(self) -> Self
        recommends
            self.buffers.len() > 0,
    {
        let top = self.buffers.last();
        let rest = self.buffers.drop_last();
        if rest.len() == 0 {
            ModWriterView { final_stage: self.final_stage + top, buffers: rest, ..self }
        } else {
            ModWriterView { buffers: rest.update(rest.len() - 1, top + rest.last()), ..self }
        }
    }

    /// Closes the buffers of the levels deeper than `level`, innermost
    /// first.
    pub open spec fn fold_buffers(self, level: nat) -> Self
        decreases self.buffers.len(),
    {
        if self.buffers.len() <= level {
            self
        } else {
            self.fold_top().fold_buffers(level)
        }
    }

    /// Closes every buffer: all waiting text becomes final.
    pub open spec fn flush_buffers(self) -> Self {
        self.fold_buffers(0)
    }

    /// Moves the deferred queue to where text of the current level goes.
    /// Without a buffer for the current level the queue stays as it is.
    pub open spec fn flush_delayed_buffer(self) -> Self {
        if self.level == 0 || self.has_buffer(self.level) {
            ModWriterView { delayed: Seq::empty(), ..self.write(self.delayed, self.level) }
        } else {
            self
        }
    }

    /// Changes the nesting level. The buffers of levels deeper than the new
    /// one are closed, innermost first; a level beyond the buffers at hand
    /// opens one more buffer.
    pub open spec fn set_level(self, level: nat) -> Self {
        let folded = (ModWriterView { level, ..self }).fold_buffers(level);
        if folded.buffers.len() < level {
            ModWriterView { buffers: folded.buffers.push(Seq::empty()), ..folded }
        } else {
            folded
        }
    }

    /// Marks `type_def` as seen.
    pub open spec fn seen_type(self, type_def: Seq<char>) -> Self {
        ModWriterView { defined_types: self.defined_types.push(type_def), ..self }
    }

    /// Forgets every seen signature.
    pub open spec fn reset_defined_types(self) -> Self {
        ModWriterView { defined_types: Seq::empty(), ..self }
    }

    /// Whether `type_def` was marked as seen since the last reset.
    pub open spec fn have_seen_type(self, type_def: Seq<char>) -> bool {
        self.defined_types.contains(type_def)
    }

    /// Writes the opening of the module `mod_name` as final text.
    pub open spec fn print_mod_header(self, mod_name: Seq<char>) -> Self {
        self.write("pub mod "@ + mod_name + " {\n"@, 0).print_header().write(
            "use super::*;\n\n"@,
            0,
        )
    }

    /// Writes the import line of a module as final text.
    pub open spec fn print_header(self) -> Self {
        self.write(import_line(), 0)
    }

    /// Closes the module of this section; `Root` has none to close.
    pub open spec fn print_footer(self) -> Self {
        if self.section == Section::Root {
            self
        } else {
            self.write(closing_text(), 0)
        }
    }

    /// The text that closes the module of this section.
    pub open spec fn footer(self) -> Seq<char> {
        if self.section == Section::Root {
            Seq::empty()
        } else {
            closing_text()
        }
    }

    /// Finishes the section: every open level is closed, the deferred
    /// queue is flushed, and the module is closed.
    pub open spec fn read_for_output(self) -> Self {
        self.set_level(0).flush_delayed_buffer().print_footer()
    }
}

/// Closing buffers loses nothing and touches nothing else: as many buffers
/// stay as the level allows, and the final text followed by the buffers,
/// innermost first, reads as before.
pub proof fn lemma_fold_buffers(state: ModWriterView, level: nat)
    ensures
        state.fold_buffers(level).buffers.len() == if state.buffers.len() <= level {
            state.buffers.len()
        } else {
            level
        },
        state.fold_buffers(level).final_stage + unwound(state.fold_buffers(level).buffers)
            == state.final_stage + unwound(state.buffers),
        state.fold_buffers(level).level == state.level,
        state.fold_buffers(level).section == state.section,
        state.fold_buffers(level).delayed == state.delayed,
        state.fold_buffers(level).defined_types == state.defined_types,
        state.buffers.len() <= level ==> state.fold_buffers(level) == state,
    decreases state.buffers.len(),
{
    if state.buffers.len() > level {
        let top = state.buffers.last();
        let rest = state.buffers.drop_last();
        let next = state.fold_top();
        lemma_fold_buffers(next, level);
        if rest.len() == 0 {
            assert(unwound(rest) =~= Seq::<char>::empty());
            assert(next.final_stage + unwound(next.buffers) =~= state.final_stage + unwound(
                state.buffers,
            ));
        } else {
            assert(next.buffers.len() == rest.len());
            assert(next.buffers.last() == top + rest.last());
            assert(next.buffers.drop_last() =~= rest.drop_last());
            assert(unwound(rest) == rest.last() + unwound(rest.drop_last()));
            assert(unwound(state.buffers) == top + unwound(rest));
            assert(unwound(next.buffers) == (top + rest.last()) + unwound(rest.drop_last()));
            assert(unwound(next.buffers) =~= unwound(state.buffers));
        }
    }
}

/// A change of level sets the level, leaves at most one buffer per open
/// level, and loses nothing: the final text followed by the buffers,
/// innermost first, reads as before. Raising the level by one step from a
/// state with at most one buffer per level opens exactly one empty buffer
/// where the level lacks one.
pub proof fn lemma_set_level(state: ModWriterView, level: nat)
    ensures
        state.set_level(level).level == level,
        state.set_level(level).wf(),
        state.set_level(level).final_stage + unwound(state.set_level(level).buffers)
            == state.final_stage + unwound(state.buffers),
        state.set_level(level).delayed == state.delayed,
        state.set_level(level).defined_types == state.defined_types,
        state.set_level(level).section == state.section,
        state.buffers.len() < level ==> state.set_level(level).buffers == state.buffers.push(
            Seq::empty(),
        ) && state.set_level(level).final_stage == state.final_stage,
        state.buffers.len() == level ==> state.set_level(level).buffers == state.buffers
            && state.set_level(level).final_stage == state.final_stage,
        state.buffers.len() > level ==> state.set_level(level).buffers.len() == level,
{
    let moved = ModWriterView { level, ..state };
    lemma_fold_buffers(moved, level);
    let folded = moved.fold_buffers(level);
    if folded.buffers.len() < level {
        let pushed = folded.buffers.push(Seq::empty());
        assert(pushed.drop_last() =~= folded.buffers);
        assert(unwound(pushed) =~= unwound(folded.buffers));
    }
}

/// Every operation keeps at most one buffer per open level.
pub proof fn lemma_wf_is_kept(state: ModWriterView, buf: Seq<char>, level: nat)
    requires
        state.wf(),
    ensures
        ModWriterView::new(state.section).wf(),
        state.write(buf, level).wf(),
        state.delayed_write(buf).wf(),
        state.flush_delayed_buffer().wf(),
        state.set_level(level).wf(),
        state.seen_type(buf).wf(),
        state.reset_defined_types().wf(),
        state.print_footer().wf(),
        state.read_for_output().wf(),
{
    lemma_set_level(state, level);
    lemma_set_level(state, 0);
}

/// Closing every buffer makes all waiting text final, the innermost buffer
/// first.
pub proof fn lemma_flush_buffers(state: ModWriterView)
    ensures
        state.flush_buffers().final_stage == state.final_stage + unwound(state.buffers),
        state.flush_buffers().buffers == Seq::<Seq<char>>::empty(),
{
    lemma_fold_buffers(state, 0);
    assert(state.flush_buffers().buffers =~= Seq::<Seq<char>>::empty());
    assert(unwound(state.flush_buffers().buffers) =~= Seq::<char>::empty());
    assert(state.flush_buffers().final_stage =~= state.flush_buffers().final_stage + unwound(
        state.flush_buffers().buffers,
    ));
}

/// Finishing a section loses nothing: its text is then the final text so
/// far, the waiting buffers from the innermost to the outermost, the
/// deferred queue and the closing of the module, in this order; no buffer
/// and no queued text is left behind.
pub proof fn lemma_read_for_output(state: ModWriterView)
    ensures
        state.read_for_output().final_stage == state.final_stage + unwound(state.buffers)
            + state.delayed + state.footer(),
        state.read_for_output().buffers == Seq::<Seq<char>>::empty(),
        state.read_for_output().delayed == Seq::<char>::empty(),
        state.read_for_output().level == 0,
        state.read_for_output().defined_types == state.defined_types,
        state.read_for_output().section == state.section,
{
    lemma_set_level(state, 0);
    let lowered = state.set_level(0);
    assert(lowered.buffers =~= Seq::<Seq<char>>::empty());
    assert(unwound(lowered.buffers) =~= Seq::<char>::empty());
    assert(lowered.final_stage =~= state.final_stage + unwound(state.buffers));
    if state.section == Section::Root {
        assert(state.read_for_output().final_stage =~= state.final_stage + unwound(state.buffers)
            + state.delayed + state.footer());
    }
}

/// Finishing a section that has nothing waiting only closes its module.
pub proof fn lemma_read_for_output_of_settled(state: ModWriterView)
    requires
        state.level == 0,
        state.buffers.len() == 0,
        state.delayed.len() == 0,
    ensures
        state.read_for_output().final_stage == state.final_stage + state.footer(),
{
    lemma_read_for_output(state);
    assert(unwound(state.buffers) =~= Seq::<char>::empty());
    assert(state.final_stage + unwound(state.buffers) + state.delayed =~= state.final_stage);
}

/// A write at a level that has its buffer is never dropped: it lengthens
/// the final text or the buffer of its level by what was written.
pub proof fn lemma_write_is_kept(state: ModWriterView, buf: Seq<char>, level: nat)
    requires
        state.has_buffer(level),
    ensures
        level == 0 ==> state.write(buf, level).final_stage == state.final_stage + buf,
        level > 0 ==> state.write(buf, level).buffers[level - 1] == state.buffers[level - 1] + buf,
        state.write(buf, level).has_buffer(level),
{
}

/// The staged text of one output section.
pub struct ModWriter {
    level: usize,
    section: Section,
    buffers: Vec<String>,
    delayed_buffer: String,
    final_stage: String,
    defined_types: Vec<String>,
}

impl View for ModWriter {
    type V = ModWriterView;

    closed spec fn view(&self) -> ModWriterView {
        ModWriterView {
            level: self.level as nat,
            section: self.section,
            buffers: Seq::new(self.buffers.len() as nat, |i: int| self.buffers[i]@),
            delayed: self.delayed_buffer@,
            final_stage: self.final_stage@,
            defined_types: Seq::new(
                self.defined_types.len() as nat,
                |i: int| self.defined_types[i]@,
            ),
        }
    }
}

impl ModWriter {
    /// Creates the writer of `section`, with the header of its module
    /// already written.
    pub fn new(section: Section) -> (mw: Self)
        ensures
            mw@ == ModWriterView::new(section),
            mw@.wf(),
    {
        let mut mw = ModWriter {
            section,
            buffers: Vec::new(),
            delayed_buffer: String::new(),
            final_stage: String::new(),
            level: 0,
            defined_types: Vec::new(),
        };
        proof {
            assert(mw@.buffers =~= Seq::empty());
            assert(mw@.defined_types =~= Seq::empty());
        }
        match section {
            Section::Root => {},
            Section::Types => mw.print_mod_header("types"),
            Section::Messages => mw.print_mod_header("messages"),
            Section::PortTypes => mw.print_mod_header("ports"),
            Section::Bindings => mw.print_mod_header("bindings"),
        }
        mw
    }

    /// Writes the opening of the module `mod_name` as final text.
    pub fn print_mod_header(&mut self, mod_name: &str)
        ensures
            final(self)@ == old(self)@.print_mod_header(mod_name@),
            old(self)@.wf() ==> final(self)@.wf(),
    {
        let mut line = "pub mod ".to_string();
        line.append(mod_name);
        line.append(" {\n");
        self.write(line, 0);
        self.print_header();
        self.write("use super::*;\n\n".to_string(), 0);
    }

    /// Writes the import line of a module as final text.
    pub fn print_header(&mut self)
        ensures
            final(self)@ == old(self)@.print_header(),
            old(self)@.wf() ==> final(self)@.wf(),
    {
        self.write("use yaserde::{{YaSerialize, YaDeserialize}};\n\n".to_string(), 0);
    }

    /// Closes the module of this section; `Root` has none to close.
    pub fn print_footer(&mut self)
        ensures
            final(self)@ == old(self)@.print_footer(),
            old(self)@.wf() ==> final(self)@.wf(),
    {
        proof {
            if old(self)@.wf() {
                lemma_wf_is_kept(old(self)@, Seq::empty(), 0);
            }
        }
        match self.section {
            Section::Root => {},
            _ => {
                self.write("}\n\n".to_string(), 0);
            },
        }
    }

    /// Closes the buffers of the levels deeper than `level`, innermost
    /// first: the text of each goes ahead of the text in the buffer beneath
    /// it, that of the outermost behind the final text.
    pub fn fold_buffers(&mut self, level: usize)
        ensures
            final(self)@ == old(self)@.fold_buffers(level as nat),
            old(self)@.wf() ==> final(self)@.wf(),
    {
        proof {
            lemma_fold_buffers(old(self)@, level as nat);
        }
        while self.buffers.len() > level
            invariant
                self@.fold_buffers(level as nat) == old(self)@.fold_buffers(level as nat),
            decreases self.buffers.len(),
        {
            let ghost before = self@;
            let mut top = self.buffers.pop().unwrap();
            proof {
                assert(before.buffers.last() == top@);
                assert(self@.buffers =~= before.buffers.drop_last());
                assert(self@.defined_types =~= before.defined_types);
            }
            let rest = self.buffers.len();
            if rest == 0 {
                self.final_stage.append(top.as_str());
                assert(self@.buffers =~= before.fold_top().buffers);
                assert(self@.defined_types =~= before.defined_types);
            } else {
                top.append(self.buffers[rest - 1].as_str());
                self.buffers[rest - 1] = top;
                assert(self@.buffers =~= before.fold_top().buffers);
                assert(self@.defined_types =~= before.defined_types);
            }
            assert(self@ == before.fold_top());
        }
    }

    /// Closes every buffer: all waiting text becomes final.
    pub fn flush_buffers(&mut self)
        ensures
            final(self)@ == old(self)@.flush_buffers(),
            old(self)@.wf() ==> final(self)@.wf(),
    {
        proof {
            lemma_fold_buffers(old(self)@, 0);
        }
        self.fold_buffers(0);
    }

    /// Moves the deferred queue to where text of the current level goes,
    /// and empties it. Without a buffer for the current level the queue
    /// stays as it is.
    pub fn flush_delayed_buffer(&mut self)
        ensures
            final(self)@ == old(self)@.flush_delayed_buffer(),
            old(self)@.wf() ==> final(self)@.wf(),
    {
        proof {
            if old(self)@.wf() {
                lemma_wf_is_kept(old(self)@, Seq::empty(), 0);
            }
        }
        if self.level == 0 {
            self.final_stage.append(self.delayed_buffer.as_str());
            self.delayed_buffer = String::new();
            assert(self@ =~= old(self)@.flush_delayed_buffer());
        } else if self.level - 1 < self.buffers.len() {
            let at = self.level - 1;
            self.buffers[at].append(self.delayed_buffer.as_str());
            self.delayed_buffer = String::new();
            assert(self@.buffers =~= old(self)@.buffers.update(
                at as int,
                old(self)@.buffers[at as int] + old(self)@.delayed,
            ));
            assert(self@.defined_types =~= old(self)@.defined_types);
        }
    }

    /// Changes the nesting level. The buffers of levels deeper than the new
    /// one are closed, innermost first; a level beyond the buffers at hand
    /// opens one more buffer. There is then at most one buffer per open
    /// level.
    pub fn set_level(&mut self, level: usize)
        ensures
            final(self)@ == old(self)@.set_level(level as nat),
            final(self)@.level == level,
            final(self)@.buffers.len() <= level,
    {
        proof {
            lemma_set_level(old(self)@, level as nat);
        }
        self.level = level;
        assert(self@ =~= (ModWriterView { level: level as nat, ..old(self)@ }));
        self.fold_buffers(level);
        if self.buffers.len() < self.level {
            let ghost before = self@;
            self.buffers.push(String::new());
            assert(self@.buffers =~= before.buffers.push(Seq::empty()));
            assert(self@.defined_types =~= before.defined_types);
        }
    }

    /// Appends `buf` at `level`: to the final text at level 0, to the buffer
    /// of that level otherwise. Text for a level without a buffer is dropped.
    pub fn write(&mut self, buf: String, level: usize)
        ensures
            final(self)@ == old(self)@.write(buf@, level as nat),
            old(self)@.wf() ==> final(self)@.wf(),
    {
        proof {
            if old(self)@.wf() {
                lemma_wf_is_kept(old(self)@, buf@, level as nat);
            }
        }
        if level == 0 {
            self.final_stage.append(buf.as_str());
            assert(self@ =~= old(self)@.write(buf@, level as nat));
        } else if level - 1 < self.buffers.len() {
            self.buffers[level - 1].append(buf.as_str());
            assert(self@.buffers =~= old(self)@.buffers.update(
                level - 1,
                old(self)@.buffers[level - 1] + buf@,
            ));
            assert(self@.defined_types =~= old(self)@.defined_types);
        }
    }

    /// Appends `buf` to the deferred queue.
    pub fn delayed_write(&mut self, buf: String)
        ensures
            final(self)@ == old(self)@.delayed_write(buf@),
            old(self)@.wf() ==> final(self)@.wf(),
    {
        proof {
            if old(self)@.wf() {
                lemma_wf_is_kept(old(self)@, buf@, 0);
            }
        }
        self.delayed_buffer.append(buf.as_str());
        assert(self@ =~= old(self)@.delayed_write(buf@));
    }

    /// Finishes the section and returns its text: every open level is
    /// closed, the deferred queue is flushed and the module is closed, so
    /// that the text holds all that was written to the section.
    pub fn read_for_output(&mut self) -> (out: String)
        ensures
            final(self)@ == old(self)@.read_for_output(),
            out@ == final(self)@.final_stage,
            out@ == old(self)@.final_stage + unwound(old(self)@.buffers) + old(self)@.delayed
                + old(self)@.footer(),
            final(self)@.wf(),
    {
        proof {
            lemma_read_for_output(old(self)@);
        }
        self.set_level(0);
        self.flush_delayed_buffer();
        self.print_footer();
        self.final_stage.clone()
    }

    /// Marks `type_def` as seen.
    pub fn seen_type(&mut self, type_def: String)
        ensures
            final(self)@ == old(self)@.seen_type(type_def@),
            old(self)@.wf() ==> final(self)@.wf(),
    {
        proof {
            if old(self)@.wf() {
                lemma_wf_is_kept(old(self)@, type_def@, 0);
            }
        }
        self.defined_types.push(type_def);
        assert(self@.defined_types =~= old(self)@.defined_types.push(type_def@));
        assert(self@.buffers =~= old(self)@.buffers);
    }

    /// Forgets every seen signature.
    pub fn reset_defined_types(&mut self)
        ensures
            final(self)@ == old(self)@.reset_defined_types(),
            old(self)@.wf() ==> final(self)@.wf(),
    {
        proof {
            if old(self)@.wf() {
                lemma_wf_is_kept(old(self)@, Seq::empty(), 0);
            }
        }
        self.defined_types.clear();
        assert(self@.defined_types =~= Seq::empty());
        assert(self@.buffers =~= old(self)@.buffers);
    }

    /// Whether `type_def` was marked as seen since the last reset.
    pub fn have_seen_type(&self, type_def: String) -> (seen: bool)
        ensures
            seen == self@.have_seen_type(type_def@),
    {
        let mut i: usize = 0;
        while i < self.defined_types.len()
            invariant
                i <= self.defined_types.len(),
                forall|j: int| 0 <= j < i ==> self@.defined_types[j] != type_def@,
            decreases self.defined_types.len() - i,
        {
            if self.defined_types[i] == type_def {
                assert(self@.defined_types[i as int] == type_def@);
                return true;
            }
            i = i + 1;
        }
        false
    }
}

} // verus!
