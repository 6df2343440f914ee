//! The core of a driver for an xHCI USB host controller, and the parts of
//! a small kernel around it.
//!
//! The driver reaches the controller through memory-mapped registers and
//! through rings of transfer request blocks in memory that both sides
//! read and write. Neither is within the reach of a proof, so every
//! function that touches them takes the memory as a parameter and says in
//! its contract which loads and stores it makes, in which order, and what
//! it returns for each value that a load can give; see [`volatile`].
//! Memory for the controller comes from an allocator that is handed in
//! the same way, and of which a contract says what is asked; see
//! [`allocator`].
//!
//! On top of this stand the register blocks ([`registers`]), the rings
//! ([`ring`], [`event_ring`]), the control transfers and the descriptors
//! they fetch ([`control_pipe`], [`descriptor`]), the phases a device goes
//! through until its reports are read ([`phase`]), and the driver itself
//! ([`controller`]). [`task_message`] holds the queue between the
//! interrupt handlers and the task that runs the driver.

/// Memory for the structures that the controller reads.
pub mod allocator;
/// The timer of the local interrupt controller.
pub mod apic;
/// Control transfers on the default endpoint of a device.
pub mod control_pipe;
/// The driver of the controller.
pub mod controller;
/// Interrupt pipes and the reports that come through them.
pub mod delivery;
/// The descriptors by which a device says what it is.
pub mod descriptor;
/// What the driver keeps for a device.
pub mod device_slot;
/// Reading what the controller has put into memory.
pub mod dma;
/// The program headers of an executable.
pub mod elf;
/// The errors of the driver and of the kernel around it.
pub mod error;
/// The ring on which the controller reports events.
pub mod event_ring;
/// Boot protocol mice and keyboards.
pub mod hid;
/// The layers that a window is drawn from.
pub mod layers;
/// The text form of the firmware's memory map.
pub mod memory_map;
/// Devices on the bus, as far as their headers are told apart.
pub mod pci_device;
/// The phases of a device on its way to being used.
pub mod phase;
/// The phase in which a device is given its address.
pub mod phase1;
/// The phase in which the configuration of a device is read.
pub mod phase2;
/// The phase in which the reports of a device are taken.
pub mod phase3;
/// Pixels and the frame buffer they are written to.
pub mod pixel;
/// Rectangles on the screen.
pub mod rectangle;
/// The registers of the controller.
pub mod registers;
/// The rings on which the driver hands work to the controller.
pub mod ring;
/// Registers held in ordinary memory, for trying the driver out.
pub mod simulated;
/// The saved state of a task.
pub mod task;
/// The queue between the interrupt handlers and the task.
pub mod task_message;
/// Transfer events and the blocks they answer.
pub mod transfer;
/// Transfer request blocks.
pub mod trb;
/// Points and sizes.
pub mod vector;
/// Loads and stores that reach the hardware, and the record of them.
pub mod volatile;
