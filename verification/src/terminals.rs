//! The terminals that the agent has open: an identifier and the output seen so far for each.
use vstd::prelude::*;
use crate::text::same_text;

verus! {

/// A subprocess that runs for the agent.
#[derive(Debug)]
pub struct AcpTerminal {
    id: String,
    output: Vec<u8>,
}

/// The output of each terminal by its identifier.
pub closed spec fn outputs(entries: Seq<AcpTerminal>) -> Map<Seq<char>, Seq<u8>>
    decreases entries.len(),
{
    if entries.len() == 0 {
        Map::empty()
    } else {
        outputs(entries.drop_last()).insert(entries.last().id@, entries.last().output@)
    }
}

/// The terminals that the agent has open.
#[derive(Debug)]
pub struct Terminals {
    entries: Vec<AcpTerminal>,
}

impl View for Terminals {
    type V = Map<Seq<char>, Seq<u8>>;

    closed spec fn view(&self) -> Map<Seq<char>, Seq<u8>> {
        outputs(self.entries@)
    }
}

impl Terminals {
    /// No terminal.
    pub fn new() -> (r: Terminals)
        ensures
            r@ == Map::<Seq<char>, Seq<u8>>::empty(),
    {
        Terminals { entries: Vec::new() }
    }

    /// Whether there is a terminal `id`.
    pub fn contains(&self, id: &str) -> (r: bool)
        ensures
            r == self@.contains_key(id@),
    {
        let mut found = false;
        let mut i: usize = 0;
        assert(self.entries@.take(0) =~= Seq::empty());
        while i < self.entries.len()
            invariant
                i <= self.entries.len(),
                found == outputs(self.entries@.take(i as int)).contains_key(id@),
            decreases self.entries.len() - i,
        {
            assert(self.entries@.take(i + 1).drop_last() =~= self.entries@.take(i as int));
            if same_text(self.entries[i].id.as_str(), id) {
                found = true;
            }
            i += 1;
        }
        assert(self.entries@.take(i as int) =~= self.entries@);
        found
    }

    /// Removes the terminal `id` and gives back its output.
    pub fn take(&mut self, id: &str) -> (r: Option<Vec<u8>>)
        ensures
            final(self)@ == old(self)@.remove(id@),
            match r {
                Some(output) => old(self)@.contains_key(id@) && old(self)@[id@] == output@,
                None => !old(self)@.contains_key(id@),
            },
    {
        let mut entries: Vec<AcpTerminal> = Vec::new();
        std::mem::swap(&mut entries, &mut self.entries);
        let ghost all = entries@;
        let mut kept: Vec<AcpTerminal> = Vec::new();
        let mut found: Option<Vec<u8>> = None;
        assert(outputs(kept@) =~= outputs(all.take(0)).remove(id@));
        for entry in it: entries
            invariant
                it.seq() == all,
                outputs(kept@) == outputs(all.take(it.index())).remove(id@),
                match found {
                    Some(output) => outputs(all.take(it.index())).contains_key(id@) && outputs(
                        all.take(it.index()),
                    )[id@] == output@,
                    None => !outputs(all.take(it.index())).contains_key(id@),
                },
        {
            let ghost k = it.index();
            let ghost before = kept@;
            assert(all.take(k + 1).drop_last() =~= all.take(k));
            if same_text(entry.id.as_str(), id) {
                found = Some(entry.output);
            } else {
                kept.push(entry);
                assert(kept@.drop_last() =~= before);
            }
            assert(outputs(kept@) =~= outputs(all.take(k + 1)).remove(id@));
        }
        assert(all.take(all.len() as int) =~= all);
        self.entries = kept;
        found
    }

    /// Opens the terminal `id` with the output `output`, in place of one that is open under
    /// that identifier.
    pub fn put(&mut self, id: &str, output: Vec<u8>)
        ensures
            final(self)@ == old(self)@.insert(id@, output@),
    {
        let _ = self.take(id);
        let ghost before = self.entries@;
        self.entries.push(AcpTerminal { id: id.to_string(), output });
        assert(self.entries@.drop_last() =~= before);
        assert(self@ =~= old(self)@.insert(id@, output@));
    }
}

} // verus!
