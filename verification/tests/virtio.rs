use axdriver::ahci::io_status;
use axdriver::dev::{DevError, DeviceType};
use axdriver::virtio::{
    as_dev_err, as_dev_type, legacy_irq_for_bdf, pci_dev_type, pci_device_irq, IrqRouting,
    SocketError, VirtIoError, VIRTIO_VENDOR_ID,
};

#[test]
fn supported_virtio_types() {
    assert_eq!(as_dev_type(2), Some(DeviceType::Block));
    assert_eq!(as_dev_type(1), Some(DeviceType::Net));
    assert_eq!(as_dev_type(16), Some(DeviceType::Display));
    assert_eq!(as_dev_type(18), Some(DeviceType::Input));
    assert_eq!(as_dev_type(19), Some(DeviceType::Vsock));
}

#[test]
fn unsupported_virtio_types() {
    assert_eq!(as_dev_type(3), None);
    assert_eq!(as_dev_type(0), None);
    assert_eq!(as_dev_type(25), None);
}

#[test]
fn pci_ids_of_virtio_devices() {
    assert_eq!(pci_dev_type(VIRTIO_VENDOR_ID, 0x1001), Some(DeviceType::Block));
    assert_eq!(pci_dev_type(VIRTIO_VENDOR_ID, 0x1042), Some(DeviceType::Block));
    assert_eq!(pci_dev_type(VIRTIO_VENDOR_ID, 0x1000), Some(DeviceType::Net));
    assert_eq!(pci_dev_type(VIRTIO_VENDOR_ID, 0x1050), Some(DeviceType::Display));
    assert_eq!(pci_dev_type(VIRTIO_VENDOR_ID, 0x1052), Some(DeviceType::Input));
    assert_eq!(pci_dev_type(VIRTIO_VENDOR_ID, 0x1053), Some(DeviceType::Vsock));
}

#[test]
fn pci_ids_of_other_devices() {
    assert_eq!(pci_dev_type(0x8086, 0x1001), None);
    assert_eq!(pci_dev_type(VIRTIO_VENDOR_ID, 0x1003), None);
    assert_eq!(pci_dev_type(VIRTIO_VENDOR_ID, 0x1040), None);
    assert_eq!(pci_dev_type(VIRTIO_VENDOR_ID, 0x0001), None);
}

#[test]
fn legacy_irq_is_the_low_byte() {
    assert_eq!(legacy_irq_for_bdf(0x1234_010B), 0x0B);
    assert_eq!(legacy_irq_for_bdf(0xFFFF_FFFF), 0xFF);
}

#[test]
fn interrupt_line_routing() {
    assert_eq!(pci_device_irq(IrqRouting::InterruptLine { word: 0x0000_010B }, 3), Some(11));
    assert_eq!(pci_device_irq(IrqRouting::InterruptLine { word: 0x0000_01FF }, 3), None);
    assert_eq!(pci_device_irq(IrqRouting::InterruptLine { word: 0x0000_0100 }, 3), None);
}

#[test]
fn fixed_routing_adds_device_modulo_four() {
    assert_eq!(pci_device_irq(IrqRouting::Fixed { base: 0x20 }, 5), Some(0x21));
    assert_eq!(pci_device_irq(IrqRouting::Fixed { base: 0x23 }, 3), Some(0x26));
    assert_eq!(pci_device_irq(IrqRouting::Fixed { base: 0x10 }, 8), Some(0x10));
}

#[test]
fn virtio_errors_become_device_errors() {
    assert_eq!(as_dev_err(VirtIoError::QueueFull), DevError::BadState);
    assert_eq!(as_dev_err(VirtIoError::NotReady), DevError::Again);
    assert_eq!(as_dev_err(VirtIoError::WrongToken), DevError::BadState);
    assert_eq!(as_dev_err(VirtIoError::AlreadyUsed), DevError::AlreadyExists);
    assert_eq!(as_dev_err(VirtIoError::InvalidParam), DevError::InvalidParam);
    assert_eq!(as_dev_err(VirtIoError::DmaError), DevError::NoMemory);
    assert_eq!(as_dev_err(VirtIoError::IoError), DevError::Io);
    assert_eq!(as_dev_err(VirtIoError::Unsupported), DevError::Unsupported);
    assert_eq!(as_dev_err(VirtIoError::ConfigSpaceTooSmall), DevError::BadState);
    assert_eq!(as_dev_err(VirtIoError::ConfigSpaceMissing), DevError::BadState);
}

#[test]
fn socket_errors_become_device_errors() {
    let s = |e| as_dev_err(VirtIoError::SocketDeviceError(e));
    assert_eq!(s(SocketError::ConnectionExists), DevError::AlreadyExists);
    assert_eq!(s(SocketError::NotConnected), DevError::BadState);
    assert_eq!(s(SocketError::PeerSocketShutdown), DevError::Io);
    assert_eq!(s(SocketError::BufferTooShort), DevError::InvalidParam);
    assert_eq!(s(SocketError::OutputBufferTooShort(8)), DevError::InvalidParam);
    assert_eq!(s(SocketError::BufferTooLong(9, 8)), DevError::InvalidParam);
    assert_eq!(s(SocketError::UnknownOperation(7)), DevError::InvalidParam);
    assert_eq!(s(SocketError::InvalidOperation), DevError::InvalidParam);
    assert_eq!(s(SocketError::InvalidNumber), DevError::InvalidParam);
    assert_eq!(s(SocketError::UnexpectedDataInPacket), DevError::Io);
    assert_eq!(s(SocketError::InsufficientBufferSpaceInPeer), DevError::Again);
    assert_eq!(s(SocketError::RecycledWrongBuffer), DevError::BadState);
}

#[test]
fn ahci_status() {
    assert_eq!(io_status(true), Ok(()));
    assert_eq!(io_status(false), Err(DevError::Io));
}

#[test]
fn pci_ids_of_modern_and_unsupported_virtio_devices() {
    assert_eq!(pci_dev_type(VIRTIO_VENDOR_ID, 0x1041), Some(DeviceType::Net));
    assert_eq!(pci_dev_type(VIRTIO_VENDOR_ID, 0x1045), None);
    assert_eq!(pci_dev_type(VIRTIO_VENDOR_ID, 0x1002), None);
    assert_eq!(pci_dev_type(VIRTIO_VENDOR_ID, 0x1051), None);
    assert_eq!(pci_dev_type(VIRTIO_VENDOR_ID, 0x1054), None);
    assert_eq!(pci_dev_type(VIRTIO_VENDOR_ID, 0xFFFF), None);
}
