//! The kernel files that the governor reads, and what is known of them.

use vstd::prelude::*;

verus! {

/// The kernel files that the governor reads.
#[derive(Clone, Copy, PartialEq, Eq, Debug, Structural)]
pub enum NodePath {
    /// Precise counters, current location.
    DebugDvfsLoad,
    /// Precise counters, older location.
    DebugDvfsLoadOld,
    /// The driver's dump: a `gpu_loading` line, and the frequency of the first driver generation.
    GpuFreqLoad,
    /// MTK proc file with `ACTIVE=value`.
    ProcMtkLoad,
    /// Mali proc file with `key=value`.
    ProcMaliLoad,
    /// Kernel debug file whose third token is the idle percentage.
    KernelDebugLoad,
    /// Kernel file whose third token is the idle percentage.
    KernelDLoad,
    /// Kernel file whose third token is the load.
    KernelLoad,
    /// Module parameter with the idle percentage.
    ModuleIdle,
    /// Module parameter with the load.
    ModuleLoad,
    /// Current frequency of the second driver generation.
    GpuCurrentFreq,
    /// Current frequency of the second driver generation, debug location.
    GpuDebugCurrentFreq,
}

/// Number of kernel files that the governor reads.
pub const NODE_COUNT: usize = 12;

impl NodePath {
    /// Position of the file in [`NodeFiles`].
    pub open spec fn ordinal(self) -> int {
        match self {
            NodePath::DebugDvfsLoad => 0,
            NodePath::DebugDvfsLoadOld => 1,
            NodePath::GpuFreqLoad => 2,
            NodePath::ProcMtkLoad => 3,
            NodePath::ProcMaliLoad => 4,
            NodePath::KernelDebugLoad => 5,
            NodePath::KernelDLoad => 6,
            NodePath::KernelLoad => 7,
            NodePath::ModuleIdle => 8,
            NodePath::ModuleLoad => 9,
            NodePath::GpuCurrentFreq => 10,
            NodePath::GpuDebugCurrentFreq => 11,
        }
    }

    /// The file at position `i`. Positions past the end name the last file.
    pub open spec fn at(i: int) -> NodePath {
        if i <= 0 {
            NodePath::DebugDvfsLoad
        } else if i == 1 {
            NodePath::DebugDvfsLoadOld
        } else if i == 2 {
            NodePath::GpuFreqLoad
        } else if i == 3 {
            NodePath::ProcMtkLoad
        } else if i == 4 {
            NodePath::ProcMaliLoad
        } else if i == 5 {
            NodePath::KernelDebugLoad
        } else if i == 6 {
            NodePath::KernelDLoad
        } else if i == 7 {
            NodePath::KernelLoad
        } else if i == 8 {
            NodePath::ModuleIdle
        } else if i == 9 {
            NodePath::ModuleLoad
        } else if i == 10 {
            NodePath::GpuCurrentFreq
        } else {
            NodePath::GpuDebugCurrentFreq
        }
    }

    /// Position of the file in [`NodeFiles`].
    pub fn index(self) -> (r: usize)
        ensures
            r == self.ordinal(),
            r < NODE_COUNT,
    {
        match self {
            NodePath::DebugDvfsLoad => 0,
            NodePath::DebugDvfsLoadOld => 1,
            NodePath::GpuFreqLoad => 2,
            NodePath::ProcMtkLoad => 3,
            NodePath::ProcMaliLoad => 4,
            NodePath::KernelDebugLoad => 5,
            NodePath::KernelDLoad => 6,
            NodePath::KernelLoad => 7,
            NodePath::ModuleIdle => 8,
            NodePath::ModuleLoad => 9,
            NodePath::GpuCurrentFreq => 10,
            NodePath::GpuDebugCurrentFreq => 11,
        }
    }
}

/// Which kernel files are still taken as usable, by position.
#[derive(Clone, Copy, Debug)]
pub struct PathStatus {
    pub flags: [bool; 12],
}

impl View for PathStatus {
    type V = Seq<bool>;

    open spec fn view(&self) -> Seq<bool> {
        self.flags@
    }
}

impl PathStatus {
    /// Whether `p` is taken as usable.
    pub open spec fn enabled(self, p: NodePath) -> bool {
        self@[p.ordinal()]
    }

    /// No file is usable.
    pub fn none() -> (r: Self)
        ensures
            r@ == Seq::new(NODE_COUNT as nat, |i: int| false),
    {
        let r = PathStatus { flags: [false; 12] };
        proof {
            assert(r@ =~= Seq::new(NODE_COUNT as nat, |i: int| false));
        }
        r
    }

    /// Tells whether `p` is taken as usable.
    pub fn is_enabled(&self, p: NodePath) -> (r: bool)
        ensures
            r == self.enabled(p),
    {
        self.flags[p.index()]
    }

    /// Records whether `p` is usable.
    pub fn set(&mut self, p: NodePath, usable: bool)
        ensures
            final(self)@ == old(self)@.update(p.ordinal(), usable),
    {
        self.flags[p.index()] = usable;
    }
}

/// What reading a kernel file gave.
#[derive(Debug)]
pub enum ReadOutcome {
    /// The file could not be opened or read.
    Failed,
    /// The bytes that were read.
    Content(Vec<u8>),
}

/// What reading a kernel file gave, as a mathematical value.
pub enum FileView {
    Failed,
    Content(Seq<u8>),
}

impl View for ReadOutcome {
    type V = FileView;

    open spec fn view(&self) -> FileView {
        match self {
            ReadOutcome::Failed => FileView::Failed,
            ReadOutcome::Content(bytes) => FileView::Content(bytes@),
        }
    }
}

/// The kernel files read so far during one tick, by position. A file that
/// has no entry has not been read yet.
pub struct NodeFiles {
    pub entries: [Option<ReadOutcome>; 12],
}

impl View for NodeFiles {
    type V = Map<NodePath, FileView>;

    open spec fn view(&self) -> Map<NodePath, FileView> {
        Map::new(
            |p: NodePath| self.entries@[p.ordinal()] is Some,
            |p: NodePath| self.entries@[p.ordinal()]->0@,
        )
    }
}

/// Different files have different positions.
pub proof fn lemma_ordinal_injective(p: NodePath, q: NodePath)
    ensures
        0 <= p.ordinal() < NODE_COUNT,
        p.ordinal() == q.ordinal() ==> p == q,
{
    assert(NodePath::at(p.ordinal()) == p);
    assert(NodePath::at(q.ordinal()) == q);
}

impl NodeFiles {
    /// Nothing has been read yet.
    pub fn new() -> (r: Self)
        ensures
            r@ == Map::<NodePath, FileView>::empty(),
    {
        let r = NodeFiles {
            entries: [None, None, None, None, None, None, None, None, None, None, None, None],
        };
        proof {
            assert(r@ =~= Map::<NodePath, FileView>::empty());
        }
        r
    }

    /// Records what reading `p` gave, in place of what was recorded before.
    pub fn put(&mut self, p: NodePath, outcome: ReadOutcome)
        ensures
            final(self)@ == old(self)@.insert(p, outcome@),
    {
        self.entries[p.index()] = Some(outcome);
        proof {
            assert forall|q: NodePath| q != p implies q.ordinal() != p.ordinal() by {
                lemma_ordinal_injective(p, q);
            }
            assert(self@ =~= old(self)@.insert(p, outcome@));
        }
    }

    /// What reading `p` gave, if it has been read.
    pub fn get(&self, p: NodePath) -> (r: Option<&ReadOutcome>)
        ensures
            r.is_some() == self@.contains_key(p),
            r matches Some(o) ==> o@ == self@[p],
    {
        self.entries[p.index()].as_ref()
    }
}

} // verus!
