//! Device addresses, kernels and recorded device work.
//!
//! Planning code never talks to a device. It appends [`Command`]s to a
//! [`CommandBuffer`]; whoever owns the device replays them in order and stops
//! at the first one that fails.
use crate::ops_table::DeviceOp;
use vstd::prelude::*;

verus! {

/// Address of device memory. Zero is the null address.
#[derive(Clone, Copy, PartialEq, Eq, Structural, Debug)]
pub struct DevicePtr(pub u64);

impl DevicePtr {
    /// The address `bytes` further on.
    pub open spec fn at(self, bytes: int) -> DevicePtr {
        DevicePtr((self.0 + bytes) as u64)
    }

    /// Whether `bytes` bytes that start here end inside the address space.
    pub open spec fn spans(self, bytes: int) -> bool {
        self.0 + bytes <= u64::MAX
    }

    pub fn null() -> (r: DevicePtr)
        ensures
            r == DevicePtr(0),
    {
        DevicePtr(0)
    }

    pub fn is_null(self) -> (r: bool)
        ensures
            r == (self.0 == 0),
    {
        self.0 == 0
    }

    pub fn offset(self, bytes: usize) -> (r: DevicePtr)
        requires
            self.spans(bytes as int),
        ensures
            r == self.at(bytes as int),
            r.0 == self.0 + bytes,
    {
        DevicePtr(self.0 + bytes as u64)
    }
}

impl DevicePtr {
    /// Start of row `i` of a table of `dim` elements of `elem` bytes per row.
    pub open spec fn row_at(self, i: int, dim: int, elem: int) -> DevicePtr {
        self.at(i * dim * elem)
    }

    /// A table of `rows` rows that starts here ends inside the address space.
    pub open spec fn holds(self, rows: int, dim: int, elem: int) -> bool {
        &&& rows * dim * elem <= usize::MAX
        &&& self.spans(rows * dim * elem)
    }

    /// Start of row `i` of a table of `rows` rows.
    pub fn row(self, i: usize, rows: usize, dim: usize, elem: usize) -> (r: DevicePtr)
        requires
            self.holds(rows as int, dim as int, elem as int),
            i <= rows,
            elem > 0,
        ensures
            r == self.row_at(i as int, dim as int, elem as int),
            r.0 == self.0 + i * dim * elem,
            i * dim * elem <= rows * dim * elem,
    {
        proof {
            lemma_row_bound(i as int, rows as int, dim as int, elem as int);
        }
        self.offset(i * dim * elem)
    }
}

/// Row starts grow with the row number and stay within the table.
pub proof fn lemma_row_bound(i: int, rows: int, dim: int, elem: int)
    by (nonlinear_arith)
    requires
        0 <= i <= rows,
        0 <= dim,
        0 < elem,
    ensures
        0 <= i * dim <= i * dim * elem <= rows * dim * elem,
{
}

/// Different rows of a table do not overlap.
pub proof fn law_rows_disjoint(p: DevicePtr, i: int, j: int, rows: int, dim: int, elem: int)
    requires
        0 <= i < j < rows,
        0 <= dim,
        0 < elem,
        p.holds(rows, dim, elem),
    ensures
        p.row_at(i, dim, elem).0 + dim * elem <= p.row_at(j, dim, elem).0,
        p.row_at(j, dim, elem).0 + dim * elem <= p.0 + rows * dim * elem,
{
    lemma_row_bound(i, rows, dim, elem);
    lemma_row_bound(j, rows, dim, elem);
    assert(i * dim * elem + dim * elem <= j * dim * elem && j * dim * elem + dim * elem <= rows * dim
        * elem) by (nonlinear_arith)
        requires
            0 <= i < j < rows,
            0 <= dim,
            0 < elem,
    ;
}

/// A resolved kernel. Zero stands for a kernel that this build lacks.
#[derive(Clone, Copy, PartialEq, Eq, Structural, Debug)]
pub struct KernelHandle(pub u64);

impl KernelHandle {
    pub open spec fn present(self) -> bool {
        self.0 != 0
    }

    pub fn is_present(self) -> (r: bool)
        ensures
            r == self.present(),
    {
        self.0 != 0
    }
}

/// Bit pattern of a single-precision scalar that is only carried through.
#[derive(Clone, Copy, PartialEq, Eq, Structural, Debug)]
pub struct Scalar(pub u32);

/// Launch extent along x, y and z.
#[derive(Clone, Copy, PartialEq, Eq, Structural, Debug)]
pub struct Dim3 {
    pub x: u32,
    pub y: u32,
    pub z: u32,
}

/// One kernel argument, in declaration order.
#[derive(Clone, Copy, PartialEq, Eq, Structural, Debug)]
pub enum KernelArg {
    Ptr(DevicePtr),
    U32(u32),
    I32(i32),
    U64(u64),
    Scalar(Scalar),
}

/// A fully determined kernel launch.
#[derive(PartialEq, Eq, Debug)]
pub struct KernelLaunch {
    pub kernel: KernelHandle,
    pub grid: Dim3,
    pub block: Dim3,
    pub shared_mem: u32,
    pub args: Vec<KernelArg>,
}

/// Mathematical content of a [`KernelLaunch`].
#[verifier::ext_equal]
pub struct Launch {
    pub kernel: KernelHandle,
    pub grid: Dim3,
    pub block: Dim3,
    pub shared_mem: u32,
    pub args: Seq<KernelArg>,
}

impl View for KernelLaunch {
    type V = Launch;

    open spec fn view(&self) -> Launch {
        Launch {
            kernel: self.kernel,
            grid: self.grid,
            block: self.block,
            shared_mem: self.shared_mem,
            args: self.args@,
        }
    }
}

/// Single-launch grouped gate and up products of the sorted rows at `rows`. The
/// library reads the tables and the offsets of all experts on the host.
#[derive(PartialEq, Eq, Debug)]
pub struct GroupedGateUp {
    pub rows: DevicePtr,
    pub gate_packed: Vec<u64>,
    pub gate_sfb: Vec<u64>,
    pub gate_scale2: Vec<Scalar>,
    pub up_packed: Vec<u64>,
    pub up_sfb: Vec<u64>,
    pub up_scale2: Vec<Scalar>,
    pub gate_out: DevicePtr,
    pub up_out: DevicePtr,
    pub offsets: Vec<i32>,
    pub inter: u32,
    pub hidden: u32,
}

/// Mathematical content of a [`GroupedGateUp`].
#[verifier::ext_equal]
pub struct GateUpCall {
    pub rows: DevicePtr,
    pub gate_packed: Seq<u64>,
    pub gate_sfb: Seq<u64>,
    pub gate_scale2: Seq<Scalar>,
    pub up_packed: Seq<u64>,
    pub up_sfb: Seq<u64>,
    pub up_scale2: Seq<Scalar>,
    pub gate_out: DevicePtr,
    pub up_out: DevicePtr,
    pub offsets: Seq<i32>,
    pub inter: u32,
    pub hidden: u32,
}

impl View for GroupedGateUp {
    type V = GateUpCall;

    open spec fn view(&self) -> GateUpCall {
        GateUpCall {
            rows: self.rows,
            gate_packed: self.gate_packed@,
            gate_sfb: self.gate_sfb@,
            gate_scale2: self.gate_scale2@,
            up_packed: self.up_packed@,
            up_sfb: self.up_sfb@,
            up_scale2: self.up_scale2@,
            gate_out: self.gate_out,
            up_out: self.up_out,
            offsets: self.offsets@,
            inter: self.inter,
            hidden: self.hidden,
        }
    }
}

/// One unit of device work.
#[derive(PartialEq, Eq, Debug)]
pub enum Command {
    Launch(KernelLaunch),
    Op(DeviceOp),
    /// Places host bytes on the device.
    Upload { dst: DevicePtr, bytes: Vec<u8> },
    GateUp(GroupedGateUp),
}

/// Mathematical content of a [`Command`].
#[verifier::ext_equal]
pub enum Cmd {
    Launch(Launch),
    Op(DeviceOp),
    Upload { dst: DevicePtr, bytes: Seq<u8> },
    GateUp(GateUpCall),
}

impl View for Command {
    type V = Cmd;

    open spec fn view(&self) -> Cmd {
        match *self {
            Command::Launch(l) => Cmd::Launch(l@),
            Command::Op(op) => Cmd::Op(op),
            Command::Upload { dst, bytes } => Cmd::Upload { dst, bytes: bytes@ },
            Command::GateUp(call) => Cmd::GateUp(call@),
        }
    }
}

/// Device work in the order in which it runs.
#[derive(PartialEq, Eq, Debug)]
pub struct CommandBuffer {
    pub commands: Vec<Command>,
}

impl View for CommandBuffer {
    type V = Seq<Cmd>;

    open spec fn view(&self) -> Seq<Cmd> {
        self.commands@.map_values(|c: Command| c@)
    }
}

impl CommandBuffer {
    pub fn new() -> (r: CommandBuffer)
        ensures
            r@ == Seq::<Cmd>::empty(),
    {
        let r = CommandBuffer { commands: Vec::new() };
        assert(r@ =~= Seq::<Cmd>::empty());
        r
    }

    /// Records a kernel launch.
    pub fn launch(&mut self, l: KernelLaunch)
        ensures
            final(self)@ == old(self)@.push(Cmd::Launch(l@)),
    {
        let ghost before = self@;
        let ghost c = Command::Launch(l);
        self.commands.push(Command::Launch(l));
        assert(self@ =~= before.push(c@));
    }

    /// Records an operation.
    pub fn op(&mut self, op: DeviceOp)
        ensures
            final(self)@ == old(self)@.push(Cmd::Op(op)),
    {
        let ghost before = self@;
        self.commands.push(Command::Op(op));
        assert(self@ =~= before.push(Cmd::Op(op)));
    }

    /// Records the placement of host bytes at `dst`.
    pub fn upload(&mut self, dst: DevicePtr, bytes: Vec<u8>)
        ensures
            final(self)@ == old(self)@.push(Cmd::Upload { dst, bytes: bytes@ }),
    {
        let ghost before = self@;
        let ghost c = Command::Upload { dst, bytes };
        self.commands.push(Command::Upload { dst, bytes });
        assert(self@ =~= before.push(c@));
    }

    /// Records grouped gate and up products.
    pub fn gate_up(&mut self, call: GroupedGateUp)
        ensures
            final(self)@ == old(self)@.push(Cmd::GateUp(call@)),
    {
        let ghost before = self@;
        let ghost c = Command::GateUp(call);
        self.commands.push(Command::GateUp(call));
        assert(self@ =~= before.push(c@));
    }
}

} // verus!
