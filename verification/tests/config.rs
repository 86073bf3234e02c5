use one_kvm_ir::config::IrConfig;

#[test]
fn factory_settings() {
    let c = IrConfig::default();
    assert!(c.enabled);
    assert_eq!(c.rx_device, "auto");
    assert_eq!(c.tx_mode, "auto");
    assert_eq!(c.tx_gpio_chip, "/dev/gpiochip0");
    assert_eq!(c.tx_gpio_line, 23);
    assert_eq!(c.tx_mmap_base, 0xff63_4440);
    assert_eq!(c.tx_mmap_oen_offset, 28);
    assert_eq!(c.tx_mmap_out_offset, 32);
    assert_eq!(c.tx_bit, 23);
    assert_eq!(c.carrier, 38000);
    assert_eq!(c.learn_timeout_ms, 10000);
    assert!(c.led_enabled);
    assert_eq!(c.led_mmap_base, 0xff80_0024);
    assert_eq!(c.led_oen_offset, 0);
    assert_eq!(c.led_out_offset, 16);
    assert_eq!(c.led_bit, 8);
    assert_eq!(c.led_brightness, 40);
}

fn same(a: &IrConfig, b: &IrConfig) -> bool {
    a.enabled == b.enabled
        && a.rx_device == b.rx_device
        && a.tx_mode == b.tx_mode
        && a.tx_gpio_chip == b.tx_gpio_chip
        && a.tx_gpio_line == b.tx_gpio_line
        && a.tx_mmap_base == b.tx_mmap_base
        && a.tx_mmap_oen_offset == b.tx_mmap_oen_offset
        && a.tx_mmap_out_offset == b.tx_mmap_out_offset
        && a.tx_bit == b.tx_bit
        && a.carrier == b.carrier
        && a.learn_timeout_ms == b.learn_timeout_ms
        && a.led_enabled == b.led_enabled
        && a.led_mmap_base == b.led_mmap_base
        && a.led_oen_offset == b.led_oen_offset
        && a.led_out_offset == b.led_out_offset
        && a.led_bit == b.led_bit
        && a.led_brightness == b.led_brightness
}

#[test]
fn factory_settings_are_already_normal() {
    let mut c = IrConfig::default();
    c.normalize();
    assert!(same(&c, &IrConfig::default()));
}

#[test]
fn normalize_clamps_every_range() {
    let mut c = IrConfig::default();
    c.tx_mode = "bitbang".to_string();
    c.tx_gpio_line = 5000;
    c.tx_bit = 40;
    c.led_bit = 99;
    c.carrier = 5;
    c.learn_timeout_ms = 100;
    c.led_brightness = 0;
    c.rx_device = " \t ".to_string();
    c.normalize();
    assert_eq!(c.tx_mode, "auto");
    assert_eq!(c.tx_gpio_line, 1023);
    assert_eq!(c.tx_bit, 31);
    assert_eq!(c.led_bit, 31);
    assert_eq!(c.carrier, 20000);
    assert_eq!(c.learn_timeout_ms, 1000);
    assert_eq!(c.led_brightness, 0);
    assert_eq!(c.rx_device, "auto");

    c.carrier = 90000;
    c.learn_timeout_ms = 120000;
    c.led_brightness = 250;
    c.normalize();
    assert_eq!(c.carrier, 60000);
    assert_eq!(c.learn_timeout_ms, 60000);
    assert_eq!(c.led_brightness, 100);
}

#[test]
fn normalize_keeps_valid_values() {
    let mut c = IrConfig::default();
    c.tx_mode = "gpio".to_string();
    c.rx_device = " /dev/lirc0 ".to_string();
    c.carrier = 36000;
    c.normalize();
    assert_eq!(c.tx_mode, "gpio");
    // a non-blank receiver is kept as written
    assert_eq!(c.rx_device, " /dev/lirc0 ");
    assert_eq!(c.carrier, 36000);
    for mode in ["auto", "lirc", "gpio", "none"] {
        c.tx_mode = mode.to_string();
        c.normalize();
        assert_eq!(c.tx_mode, mode);
    }
    c.tx_mode = "GPIO".to_string();
    c.normalize();
    assert_eq!(c.tx_mode, "auto");
}

#[test]
fn normalize_twice_is_normalize_once() {
    let mut c = IrConfig::default();
    c.tx_mode = "x".to_string();
    c.carrier = 1;
    c.rx_device = String::new();
    c.led_brightness = 1000;
    c.normalize();
    let mut again = IrConfig::default();
    again.tx_mode = c.tx_mode.clone();
    again.carrier = c.carrier;
    again.rx_device = c.rx_device.clone();
    again.led_brightness = c.led_brightness;
    again.normalize();
    assert!(same(&c, &again));
}
