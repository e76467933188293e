use orange_beam::interface::{interfaces, listing_line, remote_interface, Bus, Interface};

fn interface(product: u16, path: &str, usage_page: u16, usage: u16, bus: Bus) -> Interface {
    Interface {
        vendor: 0x046d,
        product,
        path: path.as_bytes().to_vec(),
        usage_page,
        usage,
        number: -1,
        bus,
        product_name: None,
    }
}

#[test]
fn interfaces_are_listed_by_path_page_and_usage() {
    let all = [
        interface(0xb503, "b", 0xff00, 2, Bus::Bluetooth),
        interface(0xc52b, "a", 0xff00, 1, Bus::Usb),
        interface(0xc53e, "b", 0xff00, 1, Bus::Usb),
        interface(0xc53e, "ab", 0x0001, 6, Bus::Usb),
        interface(0xc53e, "a", 0xffff, 6, Bus::Usb),
        interface(0xb503, "b", 0xff00, 2, Bus::Usb),
        interface(0xb503, "b", 0x0001, 9, Bus::Usb),
    ];
    assert_eq!(interfaces(&all), [4, 3, 6, 2, 0, 5]);
    assert!(interfaces(&[]).is_empty());
}

#[test]
fn the_app_prefers_bluetooth_and_then_the_first_vendor_interface() {
    let usb = || interface(0xc53e, "a", 0xff00, 1, Bus::Usb);
    let mouse = || interface(0xb503, "a", 0x0001, 2, Bus::Bluetooth);
    let bluetooth = || interface(0xb503, "a", 0xff43, 1, Bus::Bluetooth);
    assert_eq!(remote_interface(&[mouse(), usb(), bluetooth(), bluetooth()]), Some(2));
    assert_eq!(remote_interface(&[mouse(), usb(), usb()]), Some(1));
    assert_eq!(remote_interface(&[mouse()]), None);
    assert_eq!(remote_interface(&[]), None);
}

#[test]
fn listing_lines_show_identity_usage_and_bus() {
    let mut d = interface(0xb503, "x", 0xff43, 0x0202, Bus::Bluetooth);
    assert_eq!(
        listing_line(3, &d),
        "3: 046d:b503 usage=ff43:0202 interface=-1 bus=Bluetooth Spotlight"
    );
    d.number = i32::MIN;
    d.product_name = Some("SPOTLIGHT 遥控".to_string());
    d.bus = Bus::Usb;
    assert_eq!(
        listing_line(10, &d),
        "10: 046d:b503 usage=ff43:0202 interface=-2147483648 bus=Usb SPOTLIGHT 遥控"
    );
    d.number = 2;
    assert!(listing_line(0, &d).contains(" interface=2 "));
    let names: Vec<_> = [Bus::Unknown, Bus::Usb, Bus::Bluetooth, Bus::I2c, Bus::Spi]
        .iter()
        .map(|b| b.name())
        .collect();
    assert_eq!(names, ["Unknown", "Usb", "Bluetooth", "I2c", "Spi"]);
}
