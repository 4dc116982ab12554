//! Fallback initialisation of the CV181x internal Ethernet PHY.

use vstd::prelude::*;

use super::error::Error;
use super::regs::{spin_loop_hint, RegisterIo};

verus! {

pub const EPHY_TOP_WRAP_BASE: usize = 0x0300_9800;
pub const EPHY_BASE: usize = 0x0300_9000;
pub const EPHY_TOP_WRAP_SIZE: usize = 0x8;
pub const EPHY_ANALOG_SIZE: usize = 0x80;

/// The two register windows of the internal PHY.
#[derive(Clone, Copy)]
pub struct EphyMmio<B> {
    pub top_wrap: B,
    pub analog: B,
}

/// Board tuning values of the PHY transmitter.
#[derive(Clone, Copy, Debug, Eq, PartialEq, Structural)]
pub struct EphyTuning {
    pub txitune: u16,
    pub txechoi: u16,
    pub txrterm_echo: u16,
}

impl Default for EphyTuning {
    fn default() -> (r: Self)
        ensures
            r == (EphyTuning { txitune: 0x5a5a, txechoi: 0x0000, txrterm_echo: 0x0bb0 }),
    {
        EphyTuning { txitune: 0x5a5a, txechoi: 0x0000, txrterm_echo: 0x0bb0 }
    }
}

/// The register writes (offset in the analog window, value) of the fallback
/// sequence, ending with the return to page 0.
pub open spec fn fallback_sequence_spec() -> Seq<(usize, u16)> {
    seq![
        (0x7cusize, 0x0000u16),
        (0x5cusize, 0x0c10u16),
        (0x68usize, 0x0003u16),
        (0x54usize, 0x0000u16),
        (0x7cusize, 0x1000u16),
        (0x68usize, 0x1000u16),
        (0x6cusize, 0x3020u16),
        (0x70usize, 0x5040u16),
        (0x74usize, 0x7060u16),
        (0x58usize, 0x1708u16),
        (0x5cusize, 0x3827u16),
        (0x60usize, 0x5748u16),
        (0x64usize, 0x7867u16),
        (0x7cusize, 0x1100u16),
        (0x40usize, 0x9080u16),
        (0x44usize, 0xb0a0u16),
        (0x48usize, 0xd0c0u16),
        (0x4cusize, 0xf0e0u16),
        (0x50usize, 0x9788u16),
        (0x54usize, 0xb8a7u16),
        (0x58usize, 0xd7c8u16),
        (0x5cusize, 0xf8e7u16),
        (0x7cusize, 0x0500u16),
        (0x7cusize, 0x0a00u16),
        (0x40usize, 0x3e00u16),
        (0x44usize, 0x7864u16),
        (0x48usize, 0x6470u16),
        (0x4cusize, 0x5f62u16),
        (0x50usize, 0x5a5au16),
        (0x54usize, 0x5458u16),
        (0x58usize, 0xb23au16),
        (0x5cusize, 0x94a0u16),
        (0x60usize, 0x9092u16),
        (0x64usize, 0x8a8eu16),
        (0x68usize, 0x8688u16),
        (0x6cusize, 0x8484u16),
        (0x70usize, 0x0082u16),
        (0x7cusize, 0x0b00u16),
        (0x40usize, 0x5252u16),
        (0x44usize, 0x5252u16),
        (0x48usize, 0x4b52u16),
        (0x4cusize, 0x3d47u16),
        (0x50usize, 0xaa99u16),
        (0x54usize, 0x989eu16),
        (0x58usize, 0x9395u16),
        (0x5cusize, 0x9091u16),
        (0x60usize, 0x8e8fu16),
        (0x64usize, 0x8d8eu16),
        (0x68usize, 0x8c8cu16),
        (0x6cusize, 0x8b8bu16),
        (0x70usize, 0x008au16),
        (0x7cusize, 0x0d00u16),
        (0x40usize, 0x1e0au16),
        (0x44usize, 0x3862u16),
        (0x48usize, 0x1e62u16),
        (0x4cusize, 0x2a08u16),
        (0x50usize, 0x244cu16),
        (0x54usize, 0x1a44u16),
        (0x58usize, 0x061cu16),
        (0x7cusize, 0x0e00u16),
        (0x40usize, 0x2d30u16),
        (0x44usize, 0x3470u16),
        (0x48usize, 0x0648u16),
        (0x4cusize, 0x261cu16),
        (0x50usize, 0x3160u16),
        (0x54usize, 0x2d5eu16),
        (0x7cusize, 0x0f00u16),
        (0x40usize, 0x2922u16),
        (0x44usize, 0x366eu16),
        (0x48usize, 0x0752u16),
        (0x4cusize, 0x2556u16),
        (0x50usize, 0x2348u16),
        (0x54usize, 0x0c30u16),
        (0x7cusize, 0x1000u16),
        (0x40usize, 0x1e08u16),
        (0x44usize, 0x3868u16),
        (0x48usize, 0x1462u16),
        (0x4cusize, 0x1a0eu16),
        (0x50usize, 0x305eu16),
        (0x54usize, 0x2f62u16),
        (0x7cusize, 0x0100u16),
        (0x7cusize, 0x1300u16),
        (0x58usize, 0x0012u16),
        (0x5cusize, 0x6848u16),
        (0x7cusize, 0x1200u16),
        (0x48usize, 0x0808u16),
        (0x4cusize, 0x0808u16),
        (0x50usize, 0x32f8u16),
        (0x54usize, 0xf8dcu16),
        (0x7cusize, 0x0000u16)
    ]
}

/// The fallback register sequence; the same for every tuning.
pub fn fallback_init_sequence(tuning: EphyTuning) -> (r: Vec<(usize, u16)>)
    ensures
        r@ == fallback_sequence_spec(),
{
    let _ = tuning;
    let v: Vec<(usize, u16)> = vec![
        (0x7c, 0x0000),
        (0x5c, 0x0c10),
        (0x68, 0x0003),
        (0x54, 0x0000),
        (0x7c, 0x1000),
        (0x68, 0x1000),
        (0x6c, 0x3020),
        (0x70, 0x5040),
        (0x74, 0x7060),
        (0x58, 0x1708),
        (0x5c, 0x3827),
        (0x60, 0x5748),
        (0x64, 0x7867),
        (0x7c, 0x1100),
        (0x40, 0x9080),
        (0x44, 0xb0a0),
        (0x48, 0xd0c0),
        (0x4c, 0xf0e0),
        (0x50, 0x9788),
        (0x54, 0xb8a7),
        (0x58, 0xd7c8),
        (0x5c, 0xf8e7),
        (0x7c, 0x0500),
        (0x7c, 0x0a00),
        (0x40, 0x3e00),
        (0x44, 0x7864),
        (0x48, 0x6470),
        (0x4c, 0x5f62),
        (0x50, 0x5a5a),
        (0x54, 0x5458),
        (0x58, 0xb23a),
        (0x5c, 0x94a0),
        (0x60, 0x9092),
        (0x64, 0x8a8e),
        (0x68, 0x8688),
        (0x6c, 0x8484),
        (0x70, 0x0082),
        (0x7c, 0x0b00),
        (0x40, 0x5252),
        (0x44, 0x5252),
        (0x48, 0x4b52),
        (0x4c, 0x3d47),
        (0x50, 0xaa99),
        (0x54, 0x989e),
        (0x58, 0x9395),
        (0x5c, 0x9091),
        (0x60, 0x8e8f),
        (0x64, 0x8d8e),
        (0x68, 0x8c8c),
        (0x6c, 0x8b8b),
        (0x70, 0x008a),
        (0x7c, 0x0d00),
        (0x40, 0x1e0a),
        (0x44, 0x3862),
        (0x48, 0x1e62),
        (0x4c, 0x2a08),
        (0x50, 0x244c),
        (0x54, 0x1a44),
        (0x58, 0x061c),
        (0x7c, 0x0e00),
        (0x40, 0x2d30),
        (0x44, 0x3470),
        (0x48, 0x0648),
        (0x4c, 0x261c),
        (0x50, 0x3160),
        (0x54, 0x2d5e),
        (0x7c, 0x0f00),
        (0x40, 0x2922),
        (0x44, 0x366e),
        (0x48, 0x0752),
        (0x4c, 0x2556),
        (0x50, 0x2348),
        (0x54, 0x0c30),
        (0x7c, 0x1000),
        (0x40, 0x1e08),
        (0x44, 0x3868),
        (0x48, 0x1462),
        (0x4c, 0x1a0e),
        (0x50, 0x305e),
        (0x54, 0x2f62),
        (0x7c, 0x0100),
        (0x7c, 0x1300),
        (0x58, 0x0012),
        (0x5c, 0x6848),
        (0x7c, 0x1200),
        (0x48, 0x0808),
        (0x4c, 0x0808),
        (0x50, 0x32f8),
        (0x54, 0xf8dc),
        (0x7c, 0x0000)
    ];
    assert(v@ =~= fallback_sequence_spec());
    v
}

/// Which register window of the PHY a bring-up step touches.
#[derive(Clone, Copy, Debug, Eq, PartialEq, Structural)]
pub enum EphyWindow {
    TopWrap,
    Analog,
}

/// One step of the PHY bring-up: a 16-bit register write, a
/// read-modify-write that sets or clears bits, or the settle delay after
/// reset.
#[derive(Clone, Copy, Debug, Eq, PartialEq, Structural)]
pub enum EphyStep {
    Write { window: EphyWindow, offset: usize, value: u16 },
    SetBits { window: EphyWindow, offset: usize, bits: u16 },
    ClearBits { window: EphyWindow, offset: usize, bits: u16 },
    SettleDelay,
}

/// The steps for one entry of the fallback sequence: its write, followed
/// at page 5 by setting bits in 0x40 and 0x4c, and at page 1 by clearing
/// bits in 0x68.
pub open spec fn entry_steps_spec(e: (usize, u16)) -> Seq<EphyStep> {
    let w = seq![EphyStep::Write { window: EphyWindow::Analog, offset: e.0, value: e.1 }];
    if e.0 == 0x7c && e.1 == 0x0500 {
        w + seq![
            EphyStep::SetBits { window: EphyWindow::Analog, offset: 0x40, bits: 0x0001 },
            EphyStep::SetBits { window: EphyWindow::Analog, offset: 0x4c, bits: 0x0820 },
        ]
    } else if e.0 == 0x7c && e.1 == 0x0100 {
        w + seq![EphyStep::ClearBits { window: EphyWindow::Analog, offset: 0x68, bits: 0x0f00 }]
    } else {
        w
    }
}

/// The steps for a sequence of entries, in order.
pub open spec fn sequence_steps_spec(s: Seq<(usize, u16)>) -> Seq<EphyStep>
    decreases s.len(),
{
    if s.len() == 0 {
        Seq::empty()
    } else {
        sequence_steps_spec(s.drop_last()) + entry_steps_spec(s.last())
    }
}

/// The whole bring-up: take the PHY out of reset (top-wrap 0x04 = 1, clear
/// the power-down bits of analog 0x00), wait, select page 0 and write the
/// tuning, run the fallback sequence, then set the LED/PHY mode, enable the
/// PHY and release the reset.
pub open spec fn init_plan_spec(t: EphyTuning) -> Seq<EphyStep> {
    seq![
        EphyStep::Write { window: EphyWindow::TopWrap, offset: 0x04, value: 0x0001 },
        EphyStep::ClearBits { window: EphyWindow::Analog, offset: 0x00, bits: 0x0003 },
        EphyStep::SettleDelay,
        EphyStep::Write { window: EphyWindow::Analog, offset: 0x7c, value: 0x0000 },
        EphyStep::Write { window: EphyWindow::Analog, offset: 0x64, value: t.txitune },
        EphyStep::Write { window: EphyWindow::Analog, offset: 0x54, value: t.txechoi },
        EphyStep::Write { window: EphyWindow::Analog, offset: 0x58, value: t.txrterm_echo },
    ] + sequence_steps_spec(fallback_sequence_spec()) + seq![
        EphyStep::Write { window: EphyWindow::TopWrap, offset: 0x00, value: 0x090e },
        EphyStep::SetBits { window: EphyWindow::Analog, offset: 0x00, bits: 0x0100 },
        EphyStep::Write { window: EphyWindow::TopWrap, offset: 0x04, value: 0x0000 },
    ]
}

/// The steps of one fallback entry.
fn entry_steps(e: (usize, u16), out: &mut Vec<EphyStep>)
    ensures
        final(out)@ == old(out)@ + entry_steps_spec(e),
{
    out.push(EphyStep::Write { window: EphyWindow::Analog, offset: e.0, value: e.1 });
    if e.0 == 0x7c && e.1 == 0x0500 {
        out.push(EphyStep::SetBits { window: EphyWindow::Analog, offset: 0x40, bits: 0x0001 });
        out.push(EphyStep::SetBits { window: EphyWindow::Analog, offset: 0x4c, bits: 0x0820 });
    } else if e.0 == 0x7c && e.1 == 0x0100 {
        out.push(EphyStep::ClearBits { window: EphyWindow::Analog, offset: 0x68, bits: 0x0f00 });
    }
}

/// The bring-up steps of the PHY for `tuning`, in the order `init` runs
/// them.
pub fn init_plan(tuning: EphyTuning) -> (r: Vec<EphyStep>)
    ensures
        r@ == init_plan_spec(tuning),
{
    let mut plan: Vec<EphyStep> = Vec::new();
    plan.push(EphyStep::Write { window: EphyWindow::TopWrap, offset: 0x04, value: 0x0001 });
    plan.push(EphyStep::ClearBits { window: EphyWindow::Analog, offset: 0x00, bits: 0x0003 });
    plan.push(EphyStep::SettleDelay);
    plan.push(EphyStep::Write { window: EphyWindow::Analog, offset: 0x7c, value: 0x0000 });
    plan.push(EphyStep::Write { window: EphyWindow::Analog, offset: 0x64, value: tuning.txitune });
    plan.push(EphyStep::Write { window: EphyWindow::Analog, offset: 0x54, value: tuning.txechoi });
    plan.push(
        EphyStep::Write { window: EphyWindow::Analog, offset: 0x58, value: tuning.txrterm_echo },
    );
    let ghost head = plan@;
    let seq = fallback_init_sequence(tuning);
    let mut i: usize = 0;
    assert(seq@.take(0) =~= Seq::<(usize, u16)>::empty());
    assert(plan@ =~= head + sequence_steps_spec(seq@.take(0)));
    while i < seq.len()
        invariant
            i <= seq@.len(),
            plan@ == head + sequence_steps_spec(seq@.take(i as int)),
        decreases seq.len() - i,
    {
        entry_steps(seq[i], &mut plan);
        assert(seq@.take(i + 1).drop_last() =~= seq@.take(i as int));
        assert(plan@ =~= head + sequence_steps_spec(seq@.take(i + 1)));
        i = i + 1;
    }
    assert(seq@.take(seq@.len() as int) =~= seq@);
    plan.push(EphyStep::Write { window: EphyWindow::TopWrap, offset: 0x00, value: 0x090e });
    plan.push(EphyStep::SetBits { window: EphyWindow::Analog, offset: 0x00, bits: 0x0100 });
    plan.push(EphyStep::Write { window: EphyWindow::TopWrap, offset: 0x04, value: 0x0000 });
    assert(plan@ =~= init_plan_spec(tuning));
    plan
}

/// Carries out one bring-up step on the PHY's register windows.
pub fn run_step<B: RegisterIo>(mmio: EphyMmio<B>, step: EphyStep) {
    match step {
        EphyStep::Write { window, offset, value } => write16(window_of(mmio, window), offset, value),
        EphyStep::SetBits { window, offset, bits } => set16(window_of(mmio, window), offset, bits),
        EphyStep::ClearBits { window, offset, bits } => clear16(window_of(mmio, window), offset, bits),
        EphyStep::SettleDelay => reset_settle_delay(),
    }
}

/// The register window a step names.
pub fn window_of<B: RegisterIo>(mmio: EphyMmio<B>, window: EphyWindow) -> (r: B)
    ensures
        r == (match window {
            EphyWindow::TopWrap => mmio.top_wrap,
            EphyWindow::Analog => mmio.analog,
        }),
{
    match window {
        EphyWindow::TopWrap => mmio.top_wrap,
        EphyWindow::Analog => mmio.analog,
    }
}

/// Brings the PHY out of reset, applies the tuning and the fallback sequence
/// (with the extra bits set at page 5 and cleared at page 1), and enables it:
/// it carries out the steps of `init_plan(tuning)`, in order. It cannot fail.
pub fn init<B: RegisterIo>(mmio: EphyMmio<B>, tuning: EphyTuning) -> (r: Result<(), Error>)
    ensures
        r is Ok,
{
    let plan = init_plan(tuning);
    let mut i: usize = 0;
    while i < plan.len()
        decreases plan.len() - i,
    {
        run_step(mmio, plan[i]);
        i = i + 1;
    }
    Ok(())
}

/// Busy-waits for the PHY to settle after reset.
pub fn reset_settle_delay() {
    let mut i: u32 = 0;
    while i < 200_000
        decreases 200_000 - i,
    {
        spin_loop_hint();
        i = i + 1;
    }
}

/// Writes a 16-bit value into the 32-bit register at `offset`.
pub fn write16<B: RegisterIo>(base: B, offset: usize, value: u16) {
    base.write32(offset, value as u32);
}

/// Sets `bits` in the register at `offset`.
pub fn set16<B: RegisterIo>(base: B, offset: usize, bits: u16) {
    let value = base.read32(offset) | (bits as u32);
    base.write32(offset, value);
}

/// Clears `bits` in the register at `offset`.
pub fn clear16<B: RegisterIo>(base: B, offset: usize, bits: u16) {
    let value = base.read32(offset) & !(bits as u32);
    base.write32(offset, value);
}

} // verus!
