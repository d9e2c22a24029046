//! `leviathan.keymap.set` / `del`: the key bindings a plugin's init
//! requests, each stamped with a declaration sequence shared by both
//! kinds, so that the host replays them in source order.

use vstd::prelude::*;
use crate::json::{JsonValue, json_view, JsonV};
use crate::text::str_to_string;

verus! {

/// A binding a plugin asked for.
#[derive(Debug)]
pub struct RawKeymap {
    pub context: String,
    pub key: String,
    pub command: String,
    pub args: JsonValue,
    pub description: String,
    pub sequence: u64,
    pub source_location: Option<String>,
}

/// A binding a plugin asked to remove.
#[derive(Debug, Clone)]
pub struct RawKeymapDel {
    pub context: String,
    pub key: String,
    pub sequence: u64,
}

/// The keymap requests of one plugin init.
#[derive(Debug)]
pub struct KeymapBuild {
    keymaps: Vec<RawKeymap>,
    dels: Vec<RawKeymapDel>,
    next_sequence: u64,
}

impl KeymapBuild {
    pub closed spec fn keymaps_spec(&self) -> Seq<RawKeymap> {
        self.keymaps@
    }

    pub closed spec fn dels_spec(&self) -> Seq<RawKeymapDel> {
        self.dels@
    }

    /// The sequence the next request gets: the number of requests so far.
    pub closed spec fn next_sequence_spec(&self) -> u64 {
        self.next_sequence
    }

    /// Every request's sequence is below the next one, and no two requests
    /// share a sequence: the host can replay them in source order.
    pub closed spec fn in_source_order(&self) -> bool {
        &&& forall|i: int| 0 <= i < self.keymaps@.len() ==> (#[trigger] self.keymaps@[i]).sequence < self.next_sequence
        &&& forall|i: int| 0 <= i < self.dels@.len() ==> (#[trigger] self.dels@[i]).sequence < self.next_sequence
        &&& forall|i: int, j: int| 0 <= i < j < self.keymaps@.len() ==> self.keymaps@[i].sequence < self.keymaps@[j].sequence
        &&& forall|i: int, j: int| 0 <= i < j < self.dels@.len() ==> self.dels@[i].sequence < self.dels@[j].sequence
        &&& forall|i: int, j: int| 0 <= i < self.keymaps@.len() && 0 <= j < self.dels@.len()
            ==> self.keymaps@[i].sequence != self.dels@[j].sequence
    }

    #[verifier::type_invariant]
    closed spec fn wf(&self) -> bool {
        self.in_source_order()
    }

    pub fn new() -> (r: Self)
        ensures
            r.in_source_order(),
            r.keymaps_spec().len() == 0,
            r.dels_spec().len() == 0,
            r.next_sequence_spec() == 0,
    {
        KeymapBuild { keymaps: Vec::new(), dels: Vec::new(), next_sequence: 0 }
    }

    /// The sequence the next request gets.
    pub fn next_sequence(&self) -> (r: u64)
        ensures
            r == self.next_sequence_spec(),
    {
        self.next_sequence
    }

    pub fn keymaps(&self) -> (r: &Vec<RawKeymap>)
        ensures
            r@ == self.keymaps_spec(),
    {
        &self.keymaps
    }

    pub fn dels(&self) -> (r: &Vec<RawKeymapDel>)
        ensures
            r@ == self.dels_spec(),
    {
        &self.dels
    }

    /// Request a binding of `key` in `context` to `command`. A missing
    /// description is empty and missing arguments are null.
    pub fn set(
        &mut self,
        context: &str,
        key: &str,
        command: &str,
        args: Option<JsonValue>,
        description: Option<String>,
        source_location: Option<String>,
    )
        requires
            old(self).next_sequence_spec() < u64::MAX,
        ensures
            final(self).in_source_order(),
            final(self).next_sequence_spec() == old(self).next_sequence_spec() + 1,
            final(self).dels_spec() == old(self).dels_spec(),
            final(self).keymaps_spec().drop_last() == old(self).keymaps_spec(),
            final(self).keymaps_spec().len() == old(self).keymaps_spec().len() + 1,
            ({
                let k = final(self).keymaps_spec().last();
                &&& k.context@ == context@
                &&& k.key@ == key@
                &&& k.command@ == command@
                &&& json_view(k.args) == match args {
                    Some(a) => json_view(a),
                    None => JsonV::Null,
                }
                &&& k.description@ == match description {
                    Some(d) => d@,
                    None => Seq::<char>::empty(),
                }
                &&& k.sequence == old(self).next_sequence_spec()
                &&& k.source_location == source_location
            }),
    {
        proof {
            use_type_invariant(&*self);
        }
        let sequence = self.next_sequence;
        let args = match args {
            Some(a) => a,
            None => JsonValue::Null,
        };
        let description = match description {
            Some(d) => d,
            None => String::new(),
        };
        let mut keymaps: Vec<RawKeymap> = Vec::new();
        std::mem::swap(&mut keymaps, &mut self.keymaps);
        let ghost before = keymaps@;
        keymaps.push(RawKeymap {
            context: str_to_string(context),
            key: str_to_string(key),
            command: str_to_string(command),
            args,
            description,
            sequence,
            source_location,
        });
        assert(keymaps@.drop_last() =~= before);
        self.next_sequence = sequence + 1;
        self.keymaps = keymaps;
        proof {
            use_type_invariant(&*self);
        }
    }

    /// Request that the binding of `key` in `context` be removed.
    pub fn del(&mut self, context: &str, key: &str)
        requires
            old(self).next_sequence_spec() < u64::MAX,
        ensures
            final(self).in_source_order(),
            final(self).next_sequence_spec() == old(self).next_sequence_spec() + 1,
            final(self).keymaps_spec() == old(self).keymaps_spec(),
            final(self).dels_spec().drop_last() == old(self).dels_spec(),
            final(self).dels_spec().len() == old(self).dels_spec().len() + 1,
            final(self).dels_spec().last().context@ == context@,
            final(self).dels_spec().last().key@ == key@,
            final(self).dels_spec().last().sequence == old(self).next_sequence_spec(),
    {
        proof {
            use_type_invariant(&*self);
        }
        let sequence = self.next_sequence;
        let mut dels: Vec<RawKeymapDel> = Vec::new();
        std::mem::swap(&mut dels, &mut self.dels);
        let ghost before = dels@;
        dels.push(RawKeymapDel { context: str_to_string(context), key: str_to_string(key), sequence });
        assert(dels@.drop_last() =~= before);
        self.next_sequence = sequence + 1;
        self.dels = dels;
        proof {
            use_type_invariant(&*self);
        }
    }
}

} // verus!
