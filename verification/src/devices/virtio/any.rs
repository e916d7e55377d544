//! One device type for a bus that holds VirtIO devices of several kinds.

use vstd::prelude::*;
use crate::dram::{Dram, DramView, MemoryError};
use super::block::{BlockView, VirtioBlock};
use super::device::VirtioDevice;
use super::gpu::{GpuView, VirtioGpu};
use super::input::{InputView, VirtioInput};
use super::p9::{P9Device, P9DeviceView};

verus! {

/// A VirtIO device of any kind this library provides.
pub enum AnyVirtio {
    Block(VirtioBlock),
    Gpu(VirtioGpu),
    Input(VirtioInput),
    P9(P9Device),
}

/// The state of an `AnyVirtio`: the state of the device it holds.
pub enum AnyVirtioModel {
    Block(BlockView),
    Gpu(GpuView),
    Input(InputView),
    P9(P9DeviceView),
}

/// A device's outcome with its state put back into `AnyVirtioModel`.
pub open spec fn lift<M>(r: (Result<(), MemoryError>, M, DramView), wrap: spec_fn(M) -> AnyVirtioModel)
    -> (Result<(), MemoryError>, AnyVirtioModel, DramView)
{
    (r.0, wrap(r.1), r.2)
}

impl VirtioDevice for AnyVirtio {
    type Model = AnyVirtioModel;

    open spec fn model(&self) -> AnyVirtioModel {
        match self {
            AnyVirtio::Block(d) => AnyVirtioModel::Block(d.model()),
            AnyVirtio::Gpu(d) => AnyVirtioModel::Gpu(d.model()),
            AnyVirtio::Input(d) => AnyVirtioModel::Input(d.model()),
            AnyVirtio::P9(d) => AnyVirtioModel::P9(d.model()),
        }
    }

    open spec fn read_result(m: AnyVirtioModel, offset: u64) -> Result<u64, MemoryError> {
        match m {
            AnyVirtioModel::Block(s) => VirtioBlock::read_result(s, offset),
            AnyVirtioModel::Gpu(s) => VirtioGpu::read_result(s, offset),
            AnyVirtioModel::Input(s) => VirtioInput::read_result(s, offset),
            AnyVirtioModel::P9(s) => P9Device::read_result(s, offset),
        }
    }

    open spec fn write_result(m: AnyVirtioModel, offset: u64, val: u64, d: DramView)
        -> (Result<(), MemoryError>, AnyVirtioModel, DramView)
    {
        match m {
            AnyVirtioModel::Block(s) => lift(VirtioBlock::write_result(s, offset, val, d), |x: BlockView| AnyVirtioModel::Block(x)),
            AnyVirtioModel::Gpu(s) => lift(VirtioGpu::write_result(s, offset, val, d), |x: GpuView| AnyVirtioModel::Gpu(x)),
            AnyVirtioModel::Input(s) => lift(VirtioInput::write_result(s, offset, val, d), |x: InputView| AnyVirtioModel::Input(x)),
            AnyVirtioModel::P9(s) => lift(P9Device::write_result(s, offset, val, d), |x: P9DeviceView| AnyVirtioModel::P9(x)),
        }
    }

    open spec fn poll_result(m: AnyVirtioModel, d: DramView) -> (Result<(), MemoryError>, AnyVirtioModel, DramView) {
        match m {
            AnyVirtioModel::Block(s) => lift(VirtioBlock::poll_result(s, d), |x: BlockView| AnyVirtioModel::Block(x)),
            AnyVirtioModel::Gpu(s) => lift(VirtioGpu::poll_result(s, d), |x: GpuView| AnyVirtioModel::Gpu(x)),
            AnyVirtioModel::Input(s) => lift(VirtioInput::poll_result(s, d), |x: InputView| AnyVirtioModel::Input(x)),
            AnyVirtioModel::P9(s) => lift(P9Device::poll_result(s, d), |x: P9DeviceView| AnyVirtioModel::P9(x)),
        }
    }

    open spec fn interrupt_line(m: AnyVirtioModel) -> bool {
        match m {
            AnyVirtioModel::Block(s) => VirtioBlock::interrupt_line(s),
            AnyVirtioModel::Gpu(s) => VirtioGpu::interrupt_line(s),
            AnyVirtioModel::Input(s) => VirtioInput::interrupt_line(s),
            AnyVirtioModel::P9(s) => P9Device::interrupt_line(s),
        }
    }

    fn read(&self, offset: u64) -> (r: Result<u64, MemoryError>) {
        match self {
            AnyVirtio::Block(d) => d.read(offset),
            AnyVirtio::Gpu(d) => d.read(offset),
            AnyVirtio::Input(d) => d.read(offset),
            AnyVirtio::P9(d) => d.read(offset),
        }
    }

    fn write(&mut self, offset: u64, val: u64, dram: &mut Dram) -> (r: Result<(), MemoryError>) {
        match self {
            AnyVirtio::Block(d) => d.write(offset, val, dram),
            AnyVirtio::Gpu(d) => d.write(offset, val, dram),
            AnyVirtio::Input(d) => d.write(offset, val, dram),
            AnyVirtio::P9(d) => d.write(offset, val, dram),
        }
    }

    fn is_interrupting(&self) -> (r: bool) {
        match self {
            AnyVirtio::Block(d) => d.is_interrupting(),
            AnyVirtio::Gpu(d) => d.is_interrupting(),
            AnyVirtio::Input(d) => d.is_interrupting(),
            AnyVirtio::P9(d) => d.is_interrupting(),
        }
    }

    fn device_id(&self) -> (r: u32) {
        match self {
            AnyVirtio::Block(d) => d.device_id(),
            AnyVirtio::Gpu(d) => d.device_id(),
            AnyVirtio::Input(d) => d.device_id(),
            AnyVirtio::P9(d) => d.device_id(),
        }
    }

    fn poll(&mut self, dram: &mut Dram) -> (r: Result<(), MemoryError>) {
        match self {
            AnyVirtio::Block(d) => d.poll(dram),
            AnyVirtio::Gpu(d) => d.poll(dram),
            AnyVirtio::Input(d) => d.poll(dram),
            AnyVirtio::P9(d) => d.poll(dram),
        }
    }
}

} // verus!
