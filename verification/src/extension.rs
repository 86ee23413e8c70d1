//! The extension registry: capability objects attached to the execution
//! context for side-channel communication. A capability is registered under
//! its type identifier; registering again under the same identifier
//! overwrites. The one capability family here intercepts contract debug
//! output, either capturing it into a buffer or discarding it.
use crate::codec::{append_bytes, copy_bytes};
use vstd::prelude::*;

verus! {

/// The capability-type identifier of the debug-output capability.
pub const DEBUG_EXTENSION_ID: u32 = 1;

/// A capability object. The debug-output capability comes in a capturing and
/// a discarding variant; both share one identifier, so registering one
/// replaces the other.
#[derive(Clone, Debug)]
pub enum Extension {
    /// Capture contract debug output into a buffer.
    DebugCapture { buffer: Vec<u8> },
    /// Discard contract debug output.
    DebugDiscard,
}

/// The mathematical view of a capability object.
pub enum ExtensionView {
    /// Capture contract debug output into a buffer.
    DebugCapture { buffer: Seq<u8> },
    /// Discard contract debug output.
    DebugDiscard,
}

impl View for Extension {
    type V = ExtensionView;

    open spec fn view(&self) -> ExtensionView {
        match self {
            Extension::DebugCapture { buffer } => ExtensionView::DebugCapture { buffer: buffer@ },
            Extension::DebugDiscard => ExtensionView::DebugDiscard,
        }
    }
}

impl Extension {
    /// The capability-type identifier a capability registers under.
    pub open spec fn spec_type_id(self) -> u32 {
        DEBUG_EXTENSION_ID
    }

    /// The capability-type identifier a capability registers under.
    pub fn type_id(&self) -> (r: u32)
        ensures
            r == self.spec_type_id(),
    {
        DEBUG_EXTENSION_ID
    }
}

/// The mapping a registration sequence describes: later registrations win.
pub open spec fn reg_map_of(s: Seq<Extension>) -> Map<u32, ExtensionView>
    decreases s.len(),
{
    if s.len() == 0 {
        Map::empty()
    } else {
        reg_map_of(s.drop_last()).insert(s.last().spec_type_id(), s.last()@)
    }
}


/// How handing debug output to the registry moves it: a capturing debug
/// capability grows its buffer; a discarding or absent one leaves the
/// registry as it is.
pub open spec fn spec_sink_debug(m: Map<u32, ExtensionView>, bytes: Seq<u8>) -> Map<
    u32,
    ExtensionView,
> {
    if m.contains_key(DEBUG_EXTENSION_ID) {
        match m[DEBUG_EXTENSION_ID] {
            ExtensionView::DebugCapture { buffer } => m.insert(
                DEBUG_EXTENSION_ID,
                ExtensionView::DebugCapture { buffer: buffer + bytes },
            ),
            ExtensionView::DebugDiscard => m,
        }
    } else {
        m
    }
}

/// The registry of capability objects attached to the execution context.
pub struct ExtensionRegistry {
    entries: Vec<Extension>,
}

impl View for ExtensionRegistry {
    type V = Map<u32, ExtensionView>;

    closed spec fn view(&self) -> Map<u32, ExtensionView> {
        reg_map_of(self.entries@)
    }
}

impl ExtensionRegistry {
    /// An empty registry.
    pub fn new() -> (r: ExtensionRegistry)
        ensures
            r@ == Map::<u32, ExtensionView>::empty(),
    {
        ExtensionRegistry { entries: Vec::new() }
    }

    /// Register a capability under its type identifier, overwriting any
    /// earlier registration under that identifier. Storage is not touched.
    pub fn register(&mut self, ext: Extension)
        ensures
            final(self)@ == old(self)@.insert(ext.spec_type_id(), ext@),
    {
        proof {
            let s = self.entries@;
            assert(s.push(ext).drop_last() =~= s);
        }
        self.entries.push(ext);
    }

    /// The registered debug-output capability, copied out, if any.
    pub fn debug_extension(&self) -> (r: Option<Extension>)
        ensures
            match r {
                Some(e) => self@.contains_key(DEBUG_EXTENSION_ID) && self@[DEBUG_EXTENSION_ID]
                    == e@,
                None => !self@.contains_key(DEBUG_EXTENSION_ID),
            },
    {
        if self.entries.len() == 0 {
            proof {
                lemma_reg_map_last(self.entries@);
            }
            return None;
        }
        let last = self.entries.len() - 1;
        proof {
            lemma_reg_map_last(self.entries@);
        }
        let r = match &self.entries[last] {
            Extension::DebugCapture { buffer } => Extension::DebugCapture {
                buffer: copy_bytes(buffer.as_slice()),
            },
            Extension::DebugDiscard => Extension::DebugDiscard,
        };
        Some(r)
    }

    /// Hand contract debug output to the debug capability: a capturing one
    /// appends it to its buffer; a discarding or absent one drops it.
    pub fn sink_debug_output(&mut self, bytes: &[u8])
        ensures
            final(self)@ == spec_sink_debug(old(self)@, bytes@),
    {
        if self.entries.len() == 0 {
            proof {
                lemma_reg_map_last(self.entries@);
            }
            return ;
        }
        let last = self.entries.len() - 1;
        proof {
            lemma_reg_map_last(self.entries@);
        }
        let updated = match &self.entries[last] {
            Extension::DebugCapture { buffer } => {
                let mut grown = copy_bytes(buffer.as_slice());
                append_bytes(&mut grown, bytes);
                Extension::DebugCapture { buffer: grown }
            },
            Extension::DebugDiscard => {
                return ;
            },
        };
        proof {
            let s = self.entries@;
            assert(s.push(updated).drop_last() =~= s);
        }
        self.entries.push(updated);
    }
}

/// A non-empty registration sequence maps the shared identifier to its last
/// entry; an empty one maps nothing.
proof fn lemma_reg_map_last(s: Seq<Extension>)
    ensures
        s.len() == 0 ==> reg_map_of(s) == Map::<u32, ExtensionView>::empty(),
        s.len() > 0 ==> reg_map_of(s).contains_key(DEBUG_EXTENSION_ID) && reg_map_of(
            s,
        )[DEBUG_EXTENSION_ID] == s.last()@,
{
}

} // verus!
