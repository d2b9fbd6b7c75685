use contixis::evdev::{find_keyboards, find_mice};
use contixis::monitors::parse_display_list;
use contixis::scan::{chars_of, parse_hex, parse_i32, split_lines, split_words, trim_bounds};

const TABLE: &str = "I: Bus=0011 Vendor=0001 Product=0001 Version=ab41\n\
N: Name=\"AT Set 2 keyboard\"\n\
P: Phys=isa0060/serio0/input0\n\
H: Handlers=sysrq kbd event3 leds \n\
B: PROP=0\n\
B: EV=120013\n\
B: KEY=402000000 3803078f800d001 feffffdfffefffff fffffffffffffffe\n\
B: MSC=10\n\
\n\
I: Bus=0011 Vendor=0002 Product=0013 Version=0006\n\
N: Name=\"VirtualPS/2 VMware VMMouse\"\n\
H: Handlers=mouse0 event4 \n\
B: PROP=0\n\
B: EV=b\n\
B: KEY=70000 0 0 0 0\n\
B: ABS=3\n\
\n\
I: Bus=0003 Vendor=046d Product=c52b Version=0111\n\
N: Name=\"Logitech USB Receiver\"\n\
H: Handlers=sysrq kbd mouse1 event5 \n\
B: EV=17\n\
B: KEY=ffff0000 0 0 0 0 fffffffffffffffe\n\
B: REL=1943\n\
\n\
I: Bus=0019 Vendor=0000 Product=0001 Version=0000\n\
N: Name=\"Power Button\"\n\
H: Handlers=kbd event0 \n\
B: EV=3\n\
B: KEY=10000000000000 0\n\
\n";

#[test]
fn keyboards_need_keys_escape_and_no_relative_axes() {
    assert_eq!(find_keyboards(TABLE), vec!["/dev/input/event3".to_string()]);
}

#[test]
fn pointing_devices_have_relative_axes() {
    assert_eq!(find_mice(TABLE), vec!["/dev/input/event5".to_string()]);
}

#[test]
fn last_block_without_blank_line_is_not_counted() {
    let t = "H: Handlers=event9\nB: EV=4";
    assert!(find_mice(t).is_empty());
    let t = "H: Handlers=event9\r\nB: EV=4\r\n\r\n";
    assert_eq!(find_mice(t), vec!["/dev/input/event9".to_string()]);
}

#[test]
fn unparsable_bits_count_as_zero() {
    let t = "H: Handlers=event1\nB: EV=zz\n\n";
    assert!(find_mice(t).is_empty());
    let t = "H: Handlers=mouse0\nB: EV=4\n\n";
    assert!(find_mice(t).is_empty());
    let t = "H: Handlers=event2\nB: EV= +6 \nB: KEY=2\n\n";
    assert!(find_keyboards(t).is_empty());
    assert_eq!(find_mice(t), vec!["/dev/input/event2".to_string()]);
}

#[test]
fn empty_table_has_no_devices() {
    assert!(find_keyboards("").is_empty());
    assert!(find_mice("\n\n").is_empty());
}

#[test]
fn text_scanning_primitives() {
    let cs = chars_of("a\r\nb\n\nc");
    let ls = split_lines(&cs);
    let ls: Vec<String> = ls.iter().map(|l| l.iter().collect()).collect();
    assert_eq!(ls, vec!["a", "b", "", "c"]);
    let ws = split_words(&chars_of("  one\ttwo \u{3000}three  "));
    let ws: Vec<String> = ws.iter().map(|w| w.iter().collect()).collect();
    assert_eq!(ws, vec!["one", "two", "three"]);
    let cs = chars_of("  ab c \n");
    assert_eq!(trim_bounds(&cs), (2, 6));
    let cs = chars_of("   ");
    let (a, b) = trim_bounds(&cs);
    assert_eq!(a, b);
    let h = chars_of("fffffffffffffffe");
    assert_eq!(parse_hex(&h, 0, h.len()), Some(0xffff_ffff_ffff_fffe));
    let h = chars_of("1ffffffffffffffff");
    assert_eq!(parse_hex(&h, 0, h.len()), None);
    let h = chars_of("+1F");
    assert_eq!(parse_hex(&h, 0, h.len()), Some(31));
    let h = chars_of("+");
    assert_eq!(parse_hex(&h, 0, h.len()), None);
    assert_eq!(parse_hex(&h, 0, 0), None);
    let h = chars_of("-1");
    assert_eq!(parse_hex(&h, 0, h.len()), None);
}

#[test]
fn decimal_numbers() {
    let p = |s: &str| {
        let cs = chars_of(s);
        parse_i32(&cs, 0, cs.len())
    };
    assert_eq!(p("0"), Some(0));
    assert_eq!(p("+42"), Some(42));
    assert_eq!(p("-1920"), Some(-1920));
    assert_eq!(p("2147483647"), Some(i32::MAX));
    assert_eq!(p("-2147483648"), Some(i32::MIN));
    assert_eq!(p("2147483648"), None);
    assert_eq!(p("-2147483649"), None);
    assert_eq!(p("-"), None);
    assert_eq!(p(""), None);
    assert_eq!(p("12a"), None);
    assert_eq!(p("99999999999999999999"), None);
}

#[test]
fn monitor_report() {
    let text = "DP-1 0 0 2560 1440\neDP-1 2560 0 1920 1200 extra\nshort line\nHDMI-1 0 1440 0 1080\n";
    let ds = parse_display_list(text).unwrap();
    assert_eq!(ds, vec![(0, 0, 2560, 1440, "DP-1".to_string()), (2560, 0, 1920, 1200, "eDP-1".to_string())]);
    assert_eq!(parse_display_list("DP-1 0 0 x 1440\nHDMI-1 0 0 100 100\n"), None);
    assert_eq!(parse_display_list("nothing here\n"), None);
    assert_eq!(parse_display_list(""), None);
}

#[test]
fn displays_fall_back_to_one_default_display() {
    use_displays();
}

fn use_displays() {
    let d = contixis::monitors::query_displays(None);
    assert_eq!(d, vec![(0, 0, 1920, 1080, "Display".to_string())]);
    let d = contixis::monitors::query_displays(Some("garbage"));
    assert_eq!(d, vec![(0, 0, 1920, 1080, "Display".to_string())]);
    let d = contixis::monitors::query_displays(Some("HDMI-1 -1280 0 1280 1024\n"));
    assert_eq!(d, vec![(-1280, 0, 1280, 1024, "HDMI-1".to_string())]);
}
