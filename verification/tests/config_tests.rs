use ysos_core::config::{default_config, Config};

#[test]
fn empty_file_gives_defaults() {
    let c = Config::parse(b"");
    assert_eq!(c.kernel_stack_address, 0xFFFF_FF01_0000_0000);
    assert_eq!(c.kernel_stack_auto_grow, 0);
    assert_eq!(c.kernel_stack_size, 512);
    assert_eq!(c.physical_memory_offset, 0xFFFF_8000_0000_0000);
    assert_eq!(c.kernel_path, b"\\KERNEL.ELF".to_vec());
    assert_eq!(c.cmdline, Vec::<u8>::new());
    assert!(!c.load_apps);
}

#[test]
fn boot_scenario_config() {
    // the boot configuration of the end-to-end boot scenario
    let text = b"kernel_path=\\KERNEL.ELF\nphysical_memory_offset=0xFFFF800000000000\nkernel_stack_address=0xFFFFFF0100000000\nkernel_stack_size=512\n";
    let c = Config::parse(text);
    assert_eq!(c.kernel_path, b"\\KERNEL.ELF".to_vec());
    assert_eq!(c.physical_memory_offset, 0xFFFF_8000_0000_0000);
    assert_eq!(c.kernel_stack_address, 0xFFFF_FF01_0000_0000);
    assert_eq!(c.kernel_stack_size, 512);
    // the stack top the boot shell loads before jumping, 8-byte aligned
    let stacktop = c.kernel_stack_address + c.kernel_stack_size * 0x1000 - 8;
    assert_eq!(stacktop, 0xFFFF_FF01_0020_0000 - 8);
}

#[test]
fn comments_blanks_and_unknown_keys_are_ignored() {
    let text = b"# a comment\n\n   \nnot_a_known_key=17\nplain text without equals\nkernel_stack_size=64\n";
    let c = Config::parse(text);
    assert_eq!(c.kernel_stack_size, 64);
    // everything else stays at its default
    assert_eq!(c.kernel_stack_address, 0xFFFF_FF01_0000_0000);
    assert_eq!(c.kernel_path, b"\\KERNEL.ELF".to_vec());
}

#[test]
fn numeric_values_decimal_unless_prefixed() {
    let c = Config::parse(b"kernel_stack_size=0x40\nkernel_stack_auto_grow=12\n");
    assert_eq!(c.kernel_stack_size, 0x40);
    assert_eq!(c.kernel_stack_auto_grow, 12);
}

#[test]
fn bad_numeric_value_keeps_default() {
    let c = Config::parse(b"kernel_stack_size=abc\nkernel_stack_address=0xZZ\n");
    assert_eq!(c.kernel_stack_size, 512);
    assert_eq!(c.kernel_stack_address, 0xFFFF_FF01_0000_0000);
}

#[test]
fn overflowing_value_keeps_default() {
    let c = Config::parse(b"kernel_stack_size=99999999999999999999999999\n");
    assert_eq!(c.kernel_stack_size, 512);
}

#[test]
fn load_apps_nonzero_is_true() {
    let c = Config::parse(b"load_apps=1\n");
    assert!(c.load_apps);
    let c = Config::parse(b"load_apps=0\n");
    assert!(!c.load_apps);
    let c = Config::parse(b"load_apps=7\n");
    assert!(c.load_apps);
    // a bad value keeps the default
    let c = Config::parse(b"load_apps=yes\n");
    assert!(!c.load_apps);
}

#[test]
fn lines_are_trimmed_but_values_keep_inner_spaces() {
    let c = Config::parse(b"   kernel_stack_size=33   \ncmdline=a b c\n");
    assert_eq!(c.kernel_stack_size, 33);
    assert_eq!(c.cmdline, b"a b c".to_vec());
}

#[test]
fn value_may_contain_equals() {
    let c = Config::parse(b"cmdline=x=y\n");
    assert_eq!(c.cmdline, b"x=y".to_vec());
}

#[test]
fn config_round_trip() {
    // parsing the default configuration's printed form yields a
    // byte-identical configuration
    let d = default_config();
    let text = d.print();
    let reparsed = Config::parse(text.as_slice());
    assert_eq!(reparsed, d);
}

#[test]
fn printed_form_is_the_canonical_text() {
    let d = default_config();
    let text = d.print();
    let expected = b"kernel_stack_address=0xffffff0100000000\nkernel_stack_size=512\nkernel_stack_auto_grow=0\nphysical_memory_offset=0xffff800000000000\nkernel_path=\\KERNEL.ELF\ncmdline=\nload_apps=0\n";
    assert_eq!(text, expected.to_vec());
}

#[test]
fn round_trip_survives_changed_fields() {
    let mut c = default_config();
    c.kernel_stack_size = 64;
    c.cmdline = b"loglevel=debug".to_vec();
    c.load_apps = true;
    let reparsed = Config::parse(c.print().as_slice());
    assert_eq!(reparsed, c);
}
