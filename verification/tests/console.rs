use vanadinite::io::console::{
    waited_for, write_str, ConsoleDevice, ConsoleDevices, ConsoleIsr,
};

/// A console that keeps what is written to it and hands out what it was
/// given to read.
struct Recorder {
    written: Vec<u8>,
    input: u8,
    set_up: bool,
}

impl ConsoleDevice for Recorder {
    fn init(&mut self) {
        self.set_up = true;
    }

    fn read(&self) -> u8 {
        self.input
    }

    fn write(&mut self, n: u8) {
        self.written.push(n);
    }
}

fn be32(n: u32) -> [u8; 4] {
    n.to_be_bytes()
}

/// A device tree with a root node that has the `compatible` property given
/// and nothing else.
fn device_tree(compatible: &[u8]) -> Vec<u8> {
    let mut structure: Vec<u8> = Vec::new();
    structure.extend_from_slice(&be32(1));
    structure.extend_from_slice(&[0, 0, 0, 0]);
    structure.extend_from_slice(&be32(3));
    structure.extend_from_slice(&be32(compatible.len() as u32));
    structure.extend_from_slice(&be32(0));
    structure.extend_from_slice(compatible);
    while structure.len() % 4 != 0 {
        structure.push(0);
    }
    structure.extend_from_slice(&be32(2));
    structure.extend_from_slice(&be32(9));
    let strings: &[u8] = b"compatible\0";
    let off_struct: u32 = 40 + 16;
    let off_strings: u32 = off_struct + structure.len() as u32;
    let total: u32 = off_strings + strings.len() as u32;
    let mut blob: Vec<u8> = Vec::new();
    blob.extend_from_slice(&be32(0xd00d_feed));
    blob.extend_from_slice(&be32(total));
    blob.extend_from_slice(&be32(off_struct));
    blob.extend_from_slice(&be32(off_strings));
    blob.extend_from_slice(&be32(40));
    blob.extend_from_slice(&be32(17));
    blob.extend_from_slice(&be32(16));
    blob.extend_from_slice(&be32(0));
    blob.extend_from_slice(&be32(strings.len() as u32));
    blob.extend_from_slice(&be32(structure.len() as u32));
    blob.extend_from_slice(&[0u8; 16]);
    blob.extend_from_slice(&structure);
    blob.extend_from_slice(strings);
    blob
}

fn driver_for(compatible: &[u8]) -> Option<ConsoleDevices> {
    let blob = device_tree(compatible);
    let tree = fdt::Fdt::new(&blob).unwrap();
    let node = tree.find_node("/").unwrap();
    ConsoleDevices::from_compatible(node.compatible().unwrap())
}

#[test]
fn write_str_sends_every_byte_in_order() {
    let mut console = Recorder { written: Vec::new(), input: b'x', set_up: false };
    console.init();
    assert!(console.set_up);
    write_str(&mut console, "hart 0\n");
    write_str(&mut console, "");
    write_str(&mut console, "ok");
    assert_eq!(console.written, b"hart 0\nok".to_vec());
}

#[test]
fn try_read_falls_back_on_read() {
    let console = Recorder { written: Vec::new(), input: b'q', set_up: false };
    assert_eq!(console.try_read(), Some(b'q'));
    assert_eq!(console.read(), b'q');
}

#[test]
fn a_byte_that_was_waited_for_is_input() {
    assert_eq!(waited_for(b'q'), Some(b'q'));
    assert_eq!(waited_for(0), Some(0));
    assert_eq!(waited_for(0xff), Some(0xff));
}

#[test]
fn from_compatible_reads_the_property() {
    assert_eq!(driver_for(b"ns16550a\0"), Some(ConsoleDevices::Uart16550));
    assert_eq!(driver_for(b"ns16550\0"), Some(ConsoleDevices::Uart16550));
    assert_eq!(driver_for(b"sifive,uart0\0"), Some(ConsoleDevices::SifiveUart));
    assert_eq!(driver_for(b"allwinner,sun20i-uart\0"), Some(ConsoleDevices::SunxiUart));
    assert_eq!(driver_for(b"arm,pl011\0"), None);
}

#[test]
fn from_compatible_looks_at_every_string() {
    assert_eq!(driver_for(b"vendor,uart\0sifive,uart0\0"), Some(ConsoleDevices::SifiveUart));
    assert_eq!(
        driver_for(b"allwinner,sun20i-uart\0snps,dw-apb-uart\0ns16550a\0"),
        Some(ConsoleDevices::Uart16550)
    );
    assert_eq!(driver_for(b"a\0b\0c\0"), None);
}

#[test]
fn from_names_prefers_the_16550() {
    let names = vec!["sifive,uart0".to_string(), "ns16550".to_string()];
    assert_eq!(ConsoleDevices::from_names(&names), Some(ConsoleDevices::Uart16550));
    let names = vec!["allwinner,sun20i-uart".to_string(), "sifive,uart0".to_string()];
    assert_eq!(ConsoleDevices::from_names(&names), Some(ConsoleDevices::SifiveUart));
    assert_eq!(ConsoleDevices::from_names(&Vec::new()), None);
    assert_eq!(ConsoleDevices::from_names(&vec!["ns16550b".to_string()]), None);
}

#[test]
fn register_isr_picks_the_handler_of_the_device() {
    let wanted = ConsoleDevices::Uart16550.register_isr(10, 3);
    assert_eq!(wanted.interrupt_id, 10);
    assert_eq!(wanted.private, 3);
    assert_eq!(wanted.priority, 1);
    assert_eq!(wanted.handler, ConsoleIsr::Console);
    assert_eq!(ConsoleDevices::SifiveUart.register_isr(4, 0).handler, ConsoleIsr::Console);
    assert_eq!(ConsoleDevices::SunxiUart.register_isr(18, 0).handler, ConsoleIsr::SunxiConsole);
}
