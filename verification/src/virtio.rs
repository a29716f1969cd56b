//! VirtIO device logic: which VirtIO devices the driver stack supports, what
//! interrupt a VirtIO PCI device raises, and how VirtIO errors become device
//! errors.
//!
//! VirtIO device types are named by their device ID, the number that the
//! VirtIO specification gives each type (`virtio_drivers::transport::DeviceType`
//! as `u8`).
use vstd::prelude::*;

use crate::dev::{DevError, DeviceType};

use virtio_drivers::transport::pci::bus::DeviceFunctionInfo as BusDeviceFunctionInfo;
use virtio_drivers::transport::pci::bus::HeaderType as BusHeaderType;
use virtio_drivers::transport::pci::virtio_device_type;

verus! {

/// The VirtIO device ID of a network card.
pub const VIRTIO_ID_NETWORK: u8 = 1;

/// The VirtIO device ID of a block device.
pub const VIRTIO_ID_BLOCK: u8 = 2;

/// The VirtIO device ID of a GPU.
pub const VIRTIO_ID_GPU: u8 = 16;

/// The VirtIO device ID of an input device.
pub const VIRTIO_ID_INPUT: u8 = 18;

/// The VirtIO device ID of a socket device.
pub const VIRTIO_ID_SOCKET: u8 = 19;

/// The PCI vendor ID of VirtIO devices.
pub const VIRTIO_VENDOR_ID: u16 = 0x1af4;

/// The device type that the driver stack gives a VirtIO device of the given
/// device ID, or `None` where it does not support the device.
pub open spec fn dev_type_spec(device_id: u8) -> Option<DeviceType> {
    if device_id == VIRTIO_ID_BLOCK {
        Some(DeviceType::Block)
    } else if device_id == VIRTIO_ID_NETWORK {
        Some(DeviceType::Net)
    } else if device_id == VIRTIO_ID_GPU {
        Some(DeviceType::Display)
    } else if device_id == VIRTIO_ID_INPUT {
        Some(DeviceType::Input)
    } else if device_id == VIRTIO_ID_SOCKET {
        Some(DeviceType::Vsock)
    } else {
        None
    }
}

/// Maps a VirtIO device ID to the device type of the driver stack: block,
/// network, GPU, input and socket devices are supported, others are not.
pub fn as_dev_type(device_id: u8) -> (r: Option<DeviceType>)
    ensures
        r == dev_type_spec(device_id),
{
    if device_id == VIRTIO_ID_BLOCK {
        Some(DeviceType::Block)
    } else if device_id == VIRTIO_ID_NETWORK {
        Some(DeviceType::Net)
    } else if device_id == VIRTIO_ID_GPU {
        Some(DeviceType::Display)
    } else if device_id == VIRTIO_ID_INPUT {
        Some(DeviceType::Input)
    } else if device_id == VIRTIO_ID_SOCKET {
        Some(DeviceType::Vsock)
    } else {
        None
    }
}

/// The device type that `virtio-drivers` gives the VirtIO device ID `n`, as
/// its own device ID: IDs 1 to 13 and 16 to 25 are known types, and ID 5
/// (memory ballooning) is read as the memory balloon type, 13.
pub open spec fn virtio_type_id(n: int) -> Option<u8> {
    if n == 5 {
        Some(13)
    } else if 1 <= n <= 13 || 16 <= n <= 25 {
        Some(n as u8)
    } else {
        None
    }
}

/// The VirtIO device ID of the device type that
/// `virtio_drivers::transport::pci::virtio_device_type` gives a PCI device
/// function with this vendor and device ID, or `None` where it recognises no
/// VirtIO device: the transitional IDs 0x1000 to 0x1005 and 0x1009 name
/// network, block, memory balloon, console, SCSI host, entropy source and 9P
/// devices; from 0x1040 on, the device ID less 0x1040 is the VirtIO ID.
pub open spec fn virtio_pci_device_id(vendor_id: u16, device_id: u16) -> Option<u8> {
    if vendor_id != VIRTIO_VENDOR_ID {
        None
    } else if device_id == 0x1000 {
        Some(VIRTIO_ID_NETWORK)
    } else if device_id == 0x1001 {
        Some(VIRTIO_ID_BLOCK)
    } else if device_id == 0x1002 {
        Some(13)
    } else if device_id == 0x1003 {
        Some(3)
    } else if device_id == 0x1004 {
        Some(8)
    } else if device_id == 0x1005 {
        Some(4)
    } else if device_id == 0x1009 {
        Some(9)
    } else if device_id >= 0x1040 {
        virtio_type_id(device_id - 0x1040)
    } else {
        None
    }
}

/// Calls `virtio_drivers::transport::pci::virtio_device_type` on a device
/// function with this vendor and device ID, and gives the VirtIO device ID
/// of the type it returns, as its source defines it.
///
/// The function reads only the vendor and device ID of its argument; the
/// other fields of the `DeviceFunctionInfo` are filled with zeros.
#[verifier::external_body]
fn pci_virtio_device_id(vendor_id: u16, device_id: u16) -> (r: Option<u8>)
    ensures
        r == virtio_pci_device_id(vendor_id, device_id),
{
    let info = BusDeviceFunctionInfo {
        vendor_id,
        device_id,
        class: 0,
        subclass: 0,
        prog_if: 0,
        revision: 0,
        header_type: BusHeaderType::Standard,
    };
    match virtio_device_type(&info) {
        Some(t) => Some(t as u8),
        None => None,
    }
}

/// The device type of the PCI device function with this vendor and device
/// ID where it is a VirtIO device that the driver stack supports.
pub open spec fn pci_dev_type_spec(vendor_id: u16, device_id: u16) -> Option<DeviceType> {
    if vendor_id != VIRTIO_VENDOR_ID {
        None
    } else if device_id == 0x1000 || device_id == 0x1041 {
        Some(DeviceType::Net)
    } else if device_id == 0x1001 || device_id == 0x1042 {
        Some(DeviceType::Block)
    } else if device_id == 0x1050 {
        Some(DeviceType::Display)
    } else if device_id == 0x1052 {
        Some(DeviceType::Input)
    } else if device_id == 0x1053 {
        Some(DeviceType::Vsock)
    } else {
        None
    }
}

/// The device type of a PCI device function with this vendor and device ID,
/// or `None` where it is not a VirtIO device that the driver stack supports.
pub fn pci_dev_type(vendor_id: u16, device_id: u16) -> (r: Option<DeviceType>)
    ensures
        r == match virtio_pci_device_id(vendor_id, device_id) {
            Some(id) => dev_type_spec(id),
            None => None,
        },
        r == pci_dev_type_spec(vendor_id, device_id),
{
    match pci_virtio_device_id(vendor_id, device_id) {
        Some(id) => as_dev_type(id),
        None => None,
    }
}

/// The register of the PCI configuration space whose low byte is the
/// Interrupt Line.
pub const PCI_INTERRUPT_LINE_REGISTER: u8 = 0x3C;

/// The first interrupt of the PCI interrupt lines on loongarch64.
pub const PCI_IRQ_BASE_LOONGARCH64: usize = 0x10;

/// The first interrupt of the PCI interrupt lines on aarch64.
pub const PCI_IRQ_BASE_AARCH64: usize = 0x23;

/// The first interrupt of the PCI interrupt lines on riscv64.
pub const PCI_IRQ_BASE_RISCV64: usize = 0x20;

/// The legacy IRQ number in the word of the configuration space that holds
/// the Interrupt Line register: its low byte. 0xFF means that firmware has
/// not programmed the register.
pub fn legacy_irq_for_bdf(interrupt_line_word: u32) -> (r: usize)
    ensures
        r == interrupt_line_word % 256,
{
    proof {
        assert(interrupt_line_word & 0xFF == interrupt_line_word % 256) by (bit_vector);
    }
    (interrupt_line_word & 0xFF) as usize
}

/// How the interrupt of a PCI device is found on the target.
#[derive(Clone, Copy, Debug, PartialEq, Eq, Structural)]
pub enum IrqRouting {
    /// From the Interrupt Line register that firmware programmed; `word` is
    /// the configuration-space word that holds it.
    InterruptLine { word: u32 },
    /// From the first interrupt of the PCI interrupt lines and the device
    /// number.
    Fixed { base: usize },
}

/// The interrupt that a PCI device raises, or `None` where firmware assigned
/// it none.
pub open spec fn device_irq_spec(routing: IrqRouting, device: u8) -> Option<usize> {
    match routing {
        IrqRouting::InterruptLine { word } => {
            let irq = word % 256;
            if irq == 0 || irq == 0xff {
                None
            } else {
                Some(irq as usize)
            }
        },
        IrqRouting::Fixed { base } => Some((base + device % 4) as usize),
    }
}

/// With the Interrupt Line routing, a device has no interrupt exactly when
/// the low byte of the register word is 0 or 0xFF; otherwise its interrupt
/// is that low byte, whatever the device number.
pub proof fn lemma_interrupt_line(word: u32, device: u8)
    ensures
        device_irq_spec(IrqRouting::InterruptLine { word }, device) is None <==> (word & 0xff == 0
            || word & 0xff == 0xff),
        device_irq_spec(IrqRouting::InterruptLine { word }, device) is Some ==> device_irq_spec(
            IrqRouting::InterruptLine { word },
            device,
        ).unwrap() == word & 0xff,
{
    assert(word & 0xff == word % 256) by (bit_vector);
}

/// With a fixed routing, every device has an interrupt among the four from
/// the base on, and devices whose numbers differ by a multiple of four
/// share it.
pub proof fn lemma_fixed_routing(base: usize, d1: u8, d2: u8)
    requires
        base + 3 <= usize::MAX,
    ensures
        device_irq_spec(IrqRouting::Fixed { base }, d1) is Some,
        base <= device_irq_spec(IrqRouting::Fixed { base }, d1).unwrap() <= base + 3,
        device_irq_spec(IrqRouting::Fixed { base }, d1) == device_irq_spec(
            IrqRouting::Fixed { base },
            d2,
        ) <==> d1 % 4 == d2 % 4,
{
}

/// The interrupt that the PCI device with device number `device` raises.
///
/// From the Interrupt Line, 0 and 0xFF mean that firmware assigned none; a
/// fixed routing adds the device number modulo 4 to its base.
pub fn pci_device_irq(routing: IrqRouting, device: u8) -> (r: Option<usize>)
    requires
        routing matches IrqRouting::Fixed { base } ==> base + 3 <= usize::MAX,
    ensures
        r == device_irq_spec(routing, device),
        routing matches IrqRouting::InterruptLine { word } ==> {
            &&& r is None <==> (word & 0xff == 0 || word & 0xff == 0xff)
            &&& r is Some ==> r.unwrap() == word & 0xff
        },
        routing matches IrqRouting::Fixed { base } ==> r == Some((base + device % 4) as usize),
{
    match routing {
        IrqRouting::InterruptLine { word } => {
            proof {
                lemma_interrupt_line(word, device);
            }
            let irq = legacy_irq_for_bdf(word);
            if irq == 0 || irq == 0xff {
                None
            } else {
                Some(irq)
            }
        },
        IrqRouting::Fixed { base } => {
            proof {
                assert(device & 3 == device % 4) by (bit_vector);
            }
            Some(base + (device & 3) as usize)
        },
    }
}

/// Errors of the socket device of `virtio-drivers`.
#[derive(Clone, Copy, Debug, PartialEq, Eq, Structural)]
pub enum SocketError {
    /// There is an existing connection.
    ConnectionExists,
    /// The device is not connected to any peer.
    NotConnected,
    /// Peer socket is shutdown.
    PeerSocketShutdown,
    /// The given buffer is shorter than expected.
    BufferTooShort,
    /// The given buffer for output is shorter than expected.
    OutputBufferTooShort(usize),
    /// The given buffer has exceeded the maximum buffer size.
    BufferTooLong(usize, usize),
    /// Unknown operation.
    UnknownOperation(u16),
    /// Invalid operation.
    InvalidOperation,
    /// Invalid number.
    InvalidNumber,
    /// Unexpected data in packet.
    UnexpectedDataInPacket,
    /// Peer has insufficient buffer space, try again later.
    InsufficientBufferSpaceInPeer,
    /// Recycled a wrong buffer.
    RecycledWrongBuffer,
}

/// The error type of the VirtIO drivers of `virtio-drivers`.
#[derive(Clone, Copy, Debug, PartialEq, Eq, Structural)]
pub enum VirtIoError {
    /// There are not enough descriptors available in the virtqueue, try again later.
    QueueFull,
    /// The device is not ready.
    NotReady,
    /// The device used a different descriptor chain to the one we were expecting.
    WrongToken,
    /// The queue is already in use.
    AlreadyUsed,
    /// Invalid parameter.
    InvalidParam,
    /// Failed to allocate DMA memory.
    DmaError,
    /// I/O error.
    IoError,
    /// The request was not supported by the device.
    Unsupported,
    /// The config space advertised by the device is smaller than the driver expected.
    ConfigSpaceTooSmall,
    /// The device doesn't have any config space, but the driver expects some.
    ConfigSpaceMissing,
    /// Error from the socket device.
    SocketDeviceError(SocketError),
}

/// The device error that a socket error stands for.
pub open spec fn socket_err_spec(e: SocketError) -> DevError {
    match e {
        SocketError::ConnectionExists => DevError::AlreadyExists,
        SocketError::NotConnected => DevError::BadState,
        SocketError::InvalidOperation => DevError::InvalidParam,
        SocketError::InvalidNumber => DevError::InvalidParam,
        SocketError::UnknownOperation(_) => DevError::InvalidParam,
        SocketError::OutputBufferTooShort(_) => DevError::InvalidParam,
        SocketError::BufferTooShort => DevError::InvalidParam,
        SocketError::BufferTooLong(_, _) => DevError::InvalidParam,
        SocketError::UnexpectedDataInPacket => DevError::Io,
        SocketError::PeerSocketShutdown => DevError::Io,
        SocketError::InsufficientBufferSpaceInPeer => DevError::Again,
        SocketError::RecycledWrongBuffer => DevError::BadState,
    }
}

/// The device error that a VirtIO error stands for.
pub open spec fn dev_err_spec(e: VirtIoError) -> DevError {
    match e {
        VirtIoError::QueueFull => DevError::BadState,
        VirtIoError::NotReady => DevError::Again,
        VirtIoError::WrongToken => DevError::BadState,
        VirtIoError::AlreadyUsed => DevError::AlreadyExists,
        VirtIoError::InvalidParam => DevError::InvalidParam,
        VirtIoError::DmaError => DevError::NoMemory,
        VirtIoError::IoError => DevError::Io,
        VirtIoError::Unsupported => DevError::Unsupported,
        VirtIoError::ConfigSpaceTooSmall => DevError::BadState,
        VirtIoError::ConfigSpaceMissing => DevError::BadState,
        VirtIoError::SocketDeviceError(s) => socket_err_spec(s),
    }
}

/// Maps a VirtIO error to the device error that stands for it.
pub fn as_dev_err(e: VirtIoError) -> (r: DevError)
    ensures
        r == dev_err_spec(e),
        e matches VirtIoError::SocketDeviceError(SocketError::UnknownOperation(_)) ==> r
            == DevError::InvalidParam,
        e matches VirtIoError::SocketDeviceError(SocketError::OutputBufferTooShort(_)) ==> r
            == DevError::InvalidParam,
        e matches VirtIoError::SocketDeviceError(SocketError::BufferTooLong(_, _)) ==> r
            == DevError::InvalidParam,
{
    match e {
        VirtIoError::QueueFull => DevError::BadState,
        VirtIoError::NotReady => DevError::Again,
        VirtIoError::WrongToken => DevError::BadState,
        VirtIoError::AlreadyUsed => DevError::AlreadyExists,
        VirtIoError::InvalidParam => DevError::InvalidParam,
        VirtIoError::DmaError => DevError::NoMemory,
        VirtIoError::IoError => DevError::Io,
        VirtIoError::Unsupported => DevError::Unsupported,
        VirtIoError::ConfigSpaceTooSmall => DevError::BadState,
        VirtIoError::ConfigSpaceMissing => DevError::BadState,
        VirtIoError::SocketDeviceError(s) => match s {
            SocketError::ConnectionExists => DevError::AlreadyExists,
            SocketError::NotConnected => DevError::BadState,
            SocketError::InvalidOperation
            | SocketError::InvalidNumber
            | SocketError::UnknownOperation(_) => DevError::InvalidParam,
            SocketError::OutputBufferTooShort(_)
            | SocketError::BufferTooShort
            | SocketError::BufferTooLong(_, _) => DevError::InvalidParam,
            SocketError::UnexpectedDataInPacket | SocketError::PeerSocketShutdown => DevError::Io,
            SocketError::InsufficientBufferSpaceInPeer => DevError::Again,
            SocketError::RecycledWrongBuffer => DevError::BadState,
        },
    }
}

/// Which VirtIO errors become each device error; the numbers that some
/// socket errors carry never change the result.
pub proof fn lemma_dev_err_preimages(e: VirtIoError)
    ensures
        dev_err_spec(e) == DevError::InvalidParam <==> (e == VirtIoError::InvalidParam || (
        e matches VirtIoError::SocketDeviceError(s) && (s == SocketError::InvalidOperation || s
            == SocketError::InvalidNumber || s == SocketError::BufferTooShort
            || s is UnknownOperation || s is OutputBufferTooShort || s is BufferTooLong))),
        dev_err_spec(e) == DevError::Io <==> (e == VirtIoError::IoError || e
            == VirtIoError::SocketDeviceError(SocketError::UnexpectedDataInPacket) || e
            == VirtIoError::SocketDeviceError(SocketError::PeerSocketShutdown)),
        dev_err_spec(e) == DevError::Again <==> (e == VirtIoError::NotReady || e
            == VirtIoError::SocketDeviceError(SocketError::InsufficientBufferSpaceInPeer)),
        dev_err_spec(e) == DevError::AlreadyExists <==> (e == VirtIoError::AlreadyUsed || e
            == VirtIoError::SocketDeviceError(SocketError::ConnectionExists)),
        dev_err_spec(e) == DevError::NoMemory <==> e == VirtIoError::DmaError,
        dev_err_spec(e) == DevError::Unsupported <==> e == VirtIoError::Unsupported,
        dev_err_spec(e) == DevError::BadState <==> (e == VirtIoError::QueueFull || e
            == VirtIoError::WrongToken || e == VirtIoError::ConfigSpaceTooSmall || e
            == VirtIoError::ConfigSpaceMissing || e == VirtIoError::SocketDeviceError(
            SocketError::NotConnected,
        ) || e == VirtIoError::SocketDeviceError(SocketError::RecycledWrongBuffer)),
        dev_err_spec(e) != DevError::ResourceBusy,
{
}

/// Socket errors that carry a number map to the same device error whatever
/// the number: an invalid parameter.
pub proof fn lemma_socket_payload_irrelevant(op: u16, n: usize, a: usize, b: usize)
    ensures
        dev_err_spec(VirtIoError::SocketDeviceError(SocketError::UnknownOperation(op)))
            == DevError::InvalidParam,
        dev_err_spec(VirtIoError::SocketDeviceError(SocketError::OutputBufferTooShort(n)))
            == DevError::InvalidParam,
        dev_err_spec(VirtIoError::SocketDeviceError(SocketError::BufferTooLong(a, b)))
            == DevError::InvalidParam,
{
}

/// Which VirtIO device IDs the driver stack supports, and as what: block
/// (2), network (1), GPU as display (16), input (18) and socket as vsock
/// (19); every other ID is unsupported, and no two IDs share a type.
pub proof fn lemma_dev_type_preimages(id: u8, other: u8)
    ensures
        dev_type_spec(id) == Some(DeviceType::Block) <==> id == 2,
        dev_type_spec(id) == Some(DeviceType::Net) <==> id == 1,
        dev_type_spec(id) == Some(DeviceType::Display) <==> id == 16,
        dev_type_spec(id) == Some(DeviceType::Input) <==> id == 18,
        dev_type_spec(id) == Some(DeviceType::Vsock) <==> id == 19,
        dev_type_spec(id) is None <==> !(id == 1 || id == 2 || id == 16 || id == 18 || id == 19),
        dev_type_spec(id) is Some && dev_type_spec(id) == dev_type_spec(other) ==> id == other,
{
}

/// A PCI device function is a supported VirtIO device only when its vendor
/// is VirtIO's. Its modern PCI device ID is 0x1040 plus the VirtIO device
/// ID, and the transitional IDs 0x1000 and 0x1001 name a network card and a
/// block device.
pub proof fn lemma_pci_ids(vendor_id: u16, id: u8)
    ensures
        vendor_id != VIRTIO_VENDOR_ID ==> forall|d: u16| #[trigger]
            pci_dev_type_spec(vendor_id, d) is None,
        pci_dev_type_spec(VIRTIO_VENDOR_ID, (0x1040 + id) as u16) == dev_type_spec(id),
        pci_dev_type_spec(VIRTIO_VENDOR_ID, 0x1000) == dev_type_spec(VIRTIO_ID_NETWORK),
        pci_dev_type_spec(VIRTIO_VENDOR_ID, 0x1001) == dev_type_spec(VIRTIO_ID_BLOCK),
{
}

/// The VirtIO device ID that a modern VirtIO PCI device ID names is the
/// PCI device ID less 0x1040, for every device type `virtio-drivers` knows
/// but ID 5, which it reads as the memory balloon (13); other vendors name
/// no VirtIO device.
pub proof fn lemma_virtio_pci_modern_ids(vendor_id: u16, n: u16)
    requires
        1 <= n <= 25,
    ensures
        vendor_id != VIRTIO_VENDOR_ID ==> virtio_pci_device_id(vendor_id, (0x1040 + n) as u16)
            is None,
        n != 5 && n != 14 && n != 15 ==> virtio_pci_device_id(
            VIRTIO_VENDOR_ID,
            (0x1040 + n) as u16,
        ) == Some(n as u8),
        n == 14 || n == 15 ==> virtio_pci_device_id(VIRTIO_VENDOR_ID, (0x1040 + n) as u16) is None,
{
}

} // verus!
