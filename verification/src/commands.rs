//! Commands and the FIFO queue that serializes them, and the watcher's
//! decision: which command a filesystem event on the plugin root produces.
//! The watcher never touches the registry; it only produces commands.

use vstd::prelude::*;
use crate::text::chars_range_to_string;

verus! {

/// The unit of work passed from any producer to the sole consumer: load the
/// plugin extracted into a working directory, or unload the plugin of a
/// name.
#[derive(Debug)]
pub enum Command {
    Load(String),
    Unload(String),
}

/// The ordered, unbounded queue through which every load and unload
/// request funnels to the single consumer, which drains it strictly in
/// arrival order, one command fully to completion before the next.
pub struct CommandQueue {
    items: Vec<Command>,
}

impl CommandQueue {
    /// The pending commands, oldest first.
    pub closed spec fn commands(self) -> Seq<Command> {
        self.items@
    }

    pub fn new() -> (q: CommandQueue)
        ensures
            q.commands() =~= Seq::<Command>::empty(),
    {
        CommandQueue { items: Vec::new() }
    }

    /// Appends a command behind every command already pending.
    pub fn send(&mut self, c: Command)
        ensures
            final(self).commands() == old(self).commands().push(c),
    {
        self.items.push(c);
    }

    /// Takes the oldest pending command, if any: delivery is first in,
    /// first out.
    pub fn recv(&mut self) -> (r: Option<Command>)
        ensures
            old(self).commands().len() == 0 ==> r is None && final(self).commands() == old(
                self,
            ).commands(),
            old(self).commands().len() > 0 ==> (match r {
                Some(c) => c == old(self).commands()[0] && final(self).commands() == old(
                    self,
                ).commands().subrange(1, old(self).commands().len() as int),
                None => false,
            }),
    {
        if self.items.len() == 0 {
            None
        } else {
            let c = self.items.remove(0);
            proof {
                assert(old(self).commands().remove(0) =~= old(self).commands().subrange(
                    1,
                    old(self).commands().len() as int,
                ));
            }
            Some(c)
        }
    }

    pub fn len(&self) -> (r: usize)
        ensures
            r == self.commands().len(),
    {
        self.items.len()
    }
}

/// Position where the file name of a path begins: just after the last path
/// separator, or the start of the path.
pub open spec fn file_name_start(p: Seq<char>) -> int
    decreases p.len(),
{
    if p.len() == 0 {
        0
    } else if p.last() == '/' {
        p.len() as int
    } else {
        file_name_start(p.drop_last())
    }
}

/// Whether the path is recognized as a packaged plugin archive: its file
/// name ends in the packaged extension with at least one character before
/// the dot.
pub open spec fn is_plugin_path(p: Seq<char>) -> bool {
    let n = p.len() as int;
    &&& n >= 7
    &&& p[n - 7] == '.'
    &&& p[n - 6] == 'p'
    &&& p[n - 5] == 'l'
    &&& p[n - 4] == 'u'
    &&& p[n - 3] == 'g'
    &&& p[n - 2] == 'i'
    &&& p[n - 1] == 'n'
    &&& file_name_start(p.take(n - 7)) < n - 7
}

/// The working directory an archive extracts into: the archive's path with
/// the packaged extension stripped.
pub open spec fn working_directory(p: Seq<char>) -> Seq<char> {
    p.take(p.len() - 7)
}

/// The plugin name a packaged archive stands for: the file name of its
/// working directory.
pub open spec fn derived_name(p: Seq<char>) -> Seq<char> {
    working_directory(p).skip(file_name_start(working_directory(p)))
}

/// Decides which command a filesystem event on a path produces. A path not
/// recognized as a packaged archive produces nothing. For an archive whose
/// extraction succeeded, a `Load` of the working directory; for one whose
/// extraction failed — an unreadable or partial archive, say mid-write —
/// an `Unload` of the derived name and never a `Load`, falling back to "no
/// plugin by this name" rather than leaving a stale instance active.
pub fn handle_archive_event(path: &Vec<char>, extract_ok: bool) -> (r: Option<Command>)
    ensures
        !is_plugin_path(path@) ==> r is None,
        is_plugin_path(path@) && extract_ok ==> (r matches Some(c) && c matches Command::Load(d)
            && d@ == working_directory(path@)),
        is_plugin_path(path@) && !extract_ok ==> (r matches Some(c) && c matches Command::Unload(
            m,
        ) && m@ == derived_name(path@)),
{
    let n = path.len();
    if n < 7 {
        return None;
    }
    let suffix_ok = path[n - 7] == '.' && path[n - 6] == 'p' && path[n - 5] == 'l' && path[n - 4]
        == 'u' && path[n - 3] == 'g' && path[n - 2] == 'i' && path[n - 1] == 'n';
    if !suffix_ok {
        return None;
    }
    let stem_len = n - 7;
    let ghost stem = path@.take(stem_len as int);
    let mut fstart = stem_len;
    proof {
        assert(stem.take(stem_len as int) =~= stem);
    }
    while fstart > 0 && path[fstart - 1] != '/'
        invariant
            0 <= fstart <= stem_len <= path@.len(),
            stem == path@.take(stem_len as int),
            file_name_start(stem) == file_name_start(stem.take(fstart as int)),
        decreases fstart,
    {
        proof {
            assert(stem.take(fstart as int).drop_last() =~= stem.take(fstart - 1));
            assert(stem.take(fstart as int).last() == path@[fstart - 1]);
        }
        fstart -= 1;
    }
    proof {
        if fstart == 0 {
            assert(stem.take(0) =~= Seq::<char>::empty());
        } else {
            assert(stem.take(fstart as int).last() == path@[fstart - 1]);
        }
        assert(file_name_start(stem) == fstart);
    }
    if fstart >= stem_len {
        proof {
            assert(!is_plugin_path(path@));
        }
        return None;
    }
    if extract_ok {
        let dir = chars_range_to_string(path, 0, stem_len);
        proof {
            assert(path@.subrange(0, stem_len as int) =~= working_directory(path@));
        }
        Some(Command::Load(dir))
    } else {
        let name = chars_range_to_string(path, fstart, stem_len);
        proof {
            assert(path@.subrange(fstart as int, stem_len as int) =~= stem.skip(fstart as int));
        }
        Some(Command::Unload(name))
    }
}

/// Archive-failure rollback: the command a corrupt archive produces is an
/// `Unload` of the derived name — `handle_archive_event` never yields a
/// `Load` for a failed extraction — and a registry that then applies the
/// unload is left with no entry active under that name.
pub proof fn lemma_archive_failure_rollback(p: Seq<char>, m: Map<Seq<char>, (u64, u64)>)
    requires
        is_plugin_path(p),
    ensures
        !m.remove(derived_name(p)).contains_key(derived_name(p)),
{
}

} // verus!
