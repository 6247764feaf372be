//! Registry of block devices and the drivers behind them.
use vstd::prelude::*;

verus! {

/// What a driver of a block device offers.
pub trait BlockDeviceDriver {
    fn read_data_lba(
        &mut self,
        info: &BlockDeviceInfo,
        buffer: usize,
        base_lba: u64,
        number_of_blocks: u64,
    ) -> Result<(), BlockDeviceError>;

    fn get_lba_block_size(&self, info: &BlockDeviceInfo) -> u64;
}

/// The numbers that identify a device: its place in the registry and the
/// driver's own number for it.
#[derive(Debug, Clone, Copy, PartialEq, Eq, Structural)]
pub struct BlockDeviceInfo {
    pub info_id: usize,
    pub device_id: usize,
}

/// A device together with the driver that serves it.
pub struct BlockDeviceDescriptor<D> {
    info: BlockDeviceInfo,
    driver: D,
}

/// The registered devices, in the order of registration.
pub struct BlockDeviceManager<D> {
    device_list: Vec<BlockDeviceDescriptor<D>>,
}

/// The errors of a block device.
#[derive(Debug, Clone, Copy, PartialEq, Eq, Structural)]
pub enum BlockDeviceError {
    InvalidDevice,
    InvalidBuffer,
    InvalidOperation,
    DeviceError,
    MemoryError,
}

impl<D> BlockDeviceDescriptor<D> {
    pub closed spec fn spec_info(&self) -> BlockDeviceInfo {
        self.info
    }

    pub closed spec fn spec_driver(&self) -> D {
        self.driver
    }

    pub fn new(device_id: usize, driver: D) -> (r: Self)
        ensures
            r.spec_info() == (BlockDeviceInfo { info_id: 0, device_id }),
            r.spec_driver() == driver,
    {
        BlockDeviceDescriptor { info: BlockDeviceInfo { info_id: 0, device_id }, driver }
    }

    pub fn get_info(&self) -> (r: BlockDeviceInfo)
        ensures
            r == self.spec_info(),
    {
        self.info
    }
}

impl<D: BlockDeviceDriver> BlockDeviceManager<D> {
    /// The infos of the registered devices.
    pub closed spec fn infos(&self) -> Seq<BlockDeviceInfo> {
        self.device_list@.map_values(|d: BlockDeviceDescriptor<D>| d.info)
    }

    /// The drivers of the registered devices.
    pub closed spec fn drivers(&self) -> Seq<D> {
        self.device_list@.map_values(|d: BlockDeviceDescriptor<D>| d.driver)
    }

    /// The infos are numbered by their place in the list.
    pub open spec fn wf(&self) -> bool {
        forall|i: int| 0 <= i < self.infos().len() ==> (#[trigger] self.infos()[i]).info_id == i
    }

    pub fn new() -> (r: Self)
        ensures
            r.wf(),
            r.infos() == Seq::<BlockDeviceInfo>::empty(),
    {
        BlockDeviceManager { device_list: Vec::new() }
    }

    /// Registers `d` under the next number.
    pub fn add_block_device(&mut self, d: BlockDeviceDescriptor<D>)
        requires
            old(self).wf(),
        ensures
            final(self).wf(),
            final(self).infos() == old(self).infos().push(
                BlockDeviceInfo { info_id: old(self).infos().len() as usize, device_id: d.spec_info().device_id },
            ),
            final(self).drivers() == old(self).drivers().push(d.spec_driver()),
    {
        let mut d = d;
        d.info.info_id = self.device_list.len();
        self.device_list.push(d);
        proof {
            assert(self.infos() =~= old(self).infos().push(d.info));
            assert(self.drivers() =~= old(self).drivers().push(d.driver));
        }
    }

    pub fn get_number_of_devices(&self) -> (r: usize)
        ensures
            r == self.infos().len(),
    {
        self.device_list.len()
    }

    /// Reads `number_of_blocks` blocks from `base_lba` of device `id` into
    /// `buffer`, through the device's driver.
    pub fn read_lba(&mut self, id: usize, buffer: usize, base_lba: u64, number_of_blocks: u64) -> (r:
        Result<(), BlockDeviceError>)
        requires
            old(self).wf(),
        ensures
            final(self).wf(),
            final(self).infos() == old(self).infos(),
            id >= old(self).infos().len() ==> r == Err::<(), BlockDeviceError>(
                BlockDeviceError::InvalidDevice,
            ) && final(self).drivers() == old(self).drivers(),
            final(self).drivers().len() == old(self).drivers().len(),
            forall|j: int|
                0 <= j < old(self).drivers().len() && j != id ==> #[trigger] final(self).drivers()[j] == old(
                    self,
                ).drivers()[j],
    {
        if id >= self.device_list.len() {
            return Err(BlockDeviceError::InvalidDevice);
        }
        let ghost before = self.infos();
        let ghost drivers = self.drivers();
        let mut d = self.device_list.remove(id);
        let r = d.driver.read_data_lba(&d.info, buffer, base_lba, number_of_blocks);
        self.device_list.insert(id, d);
        proof {
            assert(self.infos() =~= before);
            assert(self.drivers() =~= drivers.update(id as int, d.driver));
        }
        r
    }

    /// The block size of device `device_id`, or 0 where there is no such
    /// device.
    pub fn get_lba_block_size(&self, device_id: usize) -> (r: u64)
        ensures
            device_id >= self.infos().len() ==> r == 0,
    {
        if device_id >= self.device_list.len() {
            return 0;
        }
        self.device_list[device_id].driver.get_lba_block_size(&self.device_list[device_id].info)
    }
}

} // verus!
