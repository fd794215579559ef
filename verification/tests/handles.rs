use xbee_zigbee::{XBeeApiUart, XBeeTransparent};

#[test]
fn transparent_handle_keeps_its_settings() {
    let mut uart = 5u32;
    let mut delay = 9u64;
    let x = XBeeTransparent::new(&mut uart, &mut delay, b'+', 1000);
    assert_eq!(x.cmd_char(), b'+');
    assert_eq!(x.guard_time(), 1000);
}

#[test]
fn handles_pass_the_serial_port_on() {
    let mut uart = 5u32;
    let mut delay = 9u64;
    {
        let mut x = XBeeTransparent::new(&mut uart, &mut delay, b'+', 1000);
        *x.serial() += 1;
        *x.timer() += 10;
        let mut api = x.to_api();
        *api.serial() += 1;
    }
    assert_eq!(uart, 7);
    assert_eq!(delay, 19);
}

#[test]
fn api_handle_goes_back_to_transparent_mode() {
    let mut uart = 1u8;
    let mut delay = 2u8;
    {
        let api = XBeeApiUart::new(&mut uart);
        let mut x = api.to_transpartent(&mut delay, b'-', 250);
        assert_eq!(x.cmd_char(), b'-');
        assert_eq!(x.guard_time(), 250);
        *x.serial() = 40;
        *x.timer() = 50;
    }
    assert_eq!(uart, 40);
    assert_eq!(delay, 50);
}
