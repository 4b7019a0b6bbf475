//! The console: what a console device is, and which driver serves a device
//! that the device tree describes.

use vstd::prelude::*;
use vstd::string::StringSliceAdditionalSpecFns;

verus! {

/// The `compatible` property of a node of the device tree.
#[verifier::external_type_specification]
#[verifier::external_body]
pub struct ExCompatible<'a>(fdt::standard_nodes::Compatible<'a>);

/// The strings of a `compatible` property, in the order in which it holds
/// them.
pub uninterp spec fn compatible_names(compatible: fdt::standard_nodes::Compatible) -> Seq<
    Seq<char>,
>;

/// `Compatible::all`: the strings of the property, first to last. The
/// property holds its strings as bytes with a zero byte after each; `all`
/// hands out what lies between the zero bytes, and stops at the first part
/// that is not UTF-8.
#[verifier::external_body]
fn compatible_strings(compatible: fdt::standard_nodes::Compatible) -> (names: Vec<String>)
    ensures
        names@.len() == compatible_names(compatible).len(),
        forall|i: int|
            0 <= i < names@.len() ==> (#[trigger] names@[i])@ == compatible_names(compatible)[i],
{
    let mut names = Vec::new();
    for name in compatible.all() {
        names.push(name.to_owned());
    }
    names
}

/// A device that the console can be.
pub trait ConsoleDevice {
    /// Every byte that was given to `write` so far, oldest first. The
    /// record exists in proofs only; a device defines it where its code is
    /// proved, and leaves it as it is where not.
    open spec fn sent(&self) -> Seq<u8> {
        Seq::empty()
    }

    /// Sets the device up.
    fn init(&mut self);

    /// Waits for a byte of input.
    fn read(&self) -> u8;

    /// A byte of input if there is one. A device that cannot tell waits
    /// for one, and answers as `waited_for` says.
    fn try_read(&self) -> Option<u8> {
        waited_for(self.read())
    }

    /// Puts out one byte.
    fn write(&mut self, n: u8)
        ensures
            final(self).sent() == old(self).sent().push(n),
    ;
}

/// What a device that cannot tell whether input is there answers when it is
/// asked for input: `byte`, the byte that it waited for.
pub fn waited_for(byte: u8) -> (input: Option<u8>)
    ensures
        input == Some(byte),
{
    Some(byte)
}

/// Puts out the bytes of `s` on `device`, first to last.
pub fn write_str<D: ConsoleDevice>(device: &mut D, s: &str)
    ensures
        final(device).sent() == old(device).sent() + s.spec_bytes(),
{
    let bytes = s.as_bytes();
    let mut i: usize = 0;
    while i < bytes.len()
        invariant
            0 <= i <= bytes@.len(),
            bytes@ == s.spec_bytes(),
            device.sent() == old(device).sent() + bytes@.take(i as int),
        decreases bytes.len() - i,
    {
        device.write(bytes[i]);
        assert(bytes@.take(i + 1) =~= bytes@.take(i as int).push(bytes@[i as int]));
        i += 1;
    }
    assert(bytes@.take(i as int) =~= bytes@);
}

/// The handler that takes the input of a console device when it interrupts.
#[derive(Debug, Clone, Copy, PartialEq, Eq, Structural)]
pub enum ConsoleIsr {
    /// Reads one byte and queues it.
    Console,
    /// Reads and queues bytes for as long as the device has some.
    SunxiConsole,
}

/// What is to be registered for the interrupt of a console device.
#[derive(Debug, Clone, Copy, PartialEq, Eq, Structural)]
pub struct IsrRegistration {
    pub interrupt_id: usize,
    pub private: usize,
    pub handler: ConsoleIsr,
    /// The priority to give the interrupt at the controller.
    pub priority: usize,
}

/// The console devices that the kernel has a driver for.
#[derive(Debug, Clone, Copy, PartialEq, Eq, Structural)]
pub enum ConsoleDevices {
    Uart16550,
    SifiveUart,
    SunxiUart,
}

impl ConsoleDevices {
    /// Whether the driver for the 16550 serves a device with one of `names`.
    pub open spec fn is_uart16550(names: Seq<Seq<char>>) -> bool {
        names.contains("ns16550"@) || names.contains("ns16550a"@)
    }

    /// Whether the SiFive driver serves a device with one of `names`.
    pub open spec fn is_sifive(names: Seq<Seq<char>>) -> bool {
        names.contains("sifive,uart0"@)
    }

    /// Whether the Sunxi driver serves a device with one of `names`.
    pub open spec fn is_sunxi(names: Seq<Seq<char>>) -> bool {
        names.contains("allwinner,sun20i-uart"@)
    }

    /// The driver for a device that is compatible with `names`: the first,
    /// in the order 16550, SiFive, Sunxi, that serves one of them.
    pub open spec fn select(names: Seq<Seq<char>>) -> Option<ConsoleDevices> {
        if Self::is_uart16550(names) {
            Some(ConsoleDevices::Uart16550)
        } else if Self::is_sifive(names) {
            Some(ConsoleDevices::SifiveUart)
        } else if Self::is_sunxi(names) {
            Some(ConsoleDevices::SunxiUart)
        } else {
            None
        }
    }

    /// The driver for the device whose `compatible` property is given.
    pub fn from_compatible(compatible: fdt::standard_nodes::Compatible) -> (device: Option<Self>)
        ensures
            device == Self::select(compatible_names(compatible)),
    {
        let names = compatible_strings(compatible);
        assert(names@.map_values(|s: String| s@) =~= compatible_names(compatible));
        Self::from_names(&names)
    }

    /// The driver for a device that is compatible with `names`.
    pub fn from_names(names: &Vec<String>) -> (device: Option<Self>)
        ensures
            device == Self::select(names@.map_values(|s: String| s@)),
    {
        if has_name(names, "ns16550") || has_name(names, "ns16550a") {
            Some(ConsoleDevices::Uart16550)
        } else if has_name(names, "sifive,uart0") {
            Some(ConsoleDevices::SifiveUart)
        } else if has_name(names, "allwinner,sun20i-uart") {
            Some(ConsoleDevices::SunxiUart)
        } else {
            None
        }
    }

    /// What is to be registered so that interrupt `interrupt_id` of the
    /// device is served: the handler that suits the device, to be called
    /// with `private`, and priority 1 at the interrupt controller.
    pub fn register_isr(&self, interrupt_id: usize, private: usize) -> (wanted: IsrRegistration)
        ensures
            wanted.interrupt_id == interrupt_id,
            wanted.private == private,
            wanted.priority == 1,
            wanted.handler == (match *self {
                ConsoleDevices::SunxiUart => ConsoleIsr::SunxiConsole,
                _ => ConsoleIsr::Console,
            }),
    {
        let handler = match self {
            ConsoleDevices::Uart16550 => ConsoleIsr::Console,
            ConsoleDevices::SifiveUart => ConsoleIsr::Console,
            ConsoleDevices::SunxiUart => ConsoleIsr::SunxiConsole,
        };
        IsrRegistration { interrupt_id, private, handler, priority: 1 }
    }
}

/// Whether `wanted` is one of `names`.
fn has_name(names: &Vec<String>, wanted: &str) -> (yes: bool)
    ensures
        yes == names@.map_values(|s: String| s@).contains(wanted@),
{
    let target = wanted.to_owned();
    let ghost views = names@.map_values(|s: String| s@);
    let mut i: usize = 0;
    while i < names.len()
        invariant
            0 <= i <= names@.len(),
            views == names@.map_values(|s: String| s@),
            target@ == wanted@,
            forall|j: int| 0 <= j < i ==> views[j] != wanted@,
        decreases names.len() - i,
    {
        if names[i] == target {
            assert(views[i as int] == wanted@);
            assert(views.contains(wanted@));
            return true;
        }
        i += 1;
    }
    false
}

} // verus!
