//! Colors, readings, and the per-metric views.

use desktus::color::Color;
use desktus::sources::{battery_state, disk_usage, BatteryReading, BatteryState, BrightnessInfo,
    DiskUsage, MemoryUsage};
use desktus::text::format_quantity;
use desktus::util::pie_chart;
use desktus::views::battery::{battery_icon, BatteryView};
use desktus::views::brightness::BrightnessView;
use desktus::views::cpu::CpuView;
use desktus::views::date::{CalendarDate, DateView, Weekday};
use desktus::views::disk::DiskView;
use desktus::views::memory::MemoryView;
use desktus::views::time::{ClockTime, TimeView};

const GRAY: Color = Color { red: 211, green: 211, blue: 211 };

#[test]
fn color_hex_encoding() {
    assert_eq!(Color { red: 255, green: 0, blue: 128 }.to_hex(), "#ff0080");
    assert_eq!(Color { red: 0, green: 0, blue: 0 }.to_hex(), "#000000");
    assert_eq!(Color { red: 178, green: 34, blue: 34 }.to_hex(), "#b22222");
}

#[test]
fn quantity_formatting() {
    assert_eq!(format_quantity(0, "B"), "0.0 B");
    assert_eq!(format_quantity(532, "B"), "532.0 B");
    assert_eq!(format_quantity(999, "B"), "999.0 B");
    assert_eq!(format_quantity(1000, "B"), "1.0 kB");
    assert_eq!(format_quantity(1500, "B"), "1.5 kB");
    assert_eq!(format_quantity(1_500_000_000, "B"), "1.5 GB");
    assert_eq!(format_quantity(999_999, "B"), "999.9 kB");
    assert_eq!(format_quantity(3_000_000_000_000, "B"), "3.0 TB");
    assert_eq!(format_quantity(u64::MAX, "B"), "18.4 EB");
}

#[test]
fn pie_chart_steps() {
    assert_eq!(pie_chart(0), '\u{f0130}');
    assert_eq!(pie_chart(11), '\u{f0130}');
    assert_eq!(pie_chart(12), '\u{f0a9e}');
    assert_eq!(pie_chart(50), '\u{f0aa1}');
    assert_eq!(pie_chart(100), '\u{f0aa5}');
    assert_eq!(pie_chart(1000), '\u{f0aa5}');
}

#[test]
fn battery_state_averages_and_rounds() {
    assert_eq!(battery_state(&vec![]), None);
    let one = vec![BatteryReading { charge_permille: 547, charging: false }];
    assert_eq!(
        battery_state(&one),
        Some(BatteryState { capacity: 55, charging: false })
    );
    let two = vec![
        BatteryReading { charge_permille: 1000, charging: false },
        BatteryReading { charge_permille: 500, charging: true },
    ];
    assert_eq!(
        battery_state(&two),
        Some(BatteryState { capacity: 75, charging: true })
    );
    let full = vec![BatteryReading { charge_permille: 1000, charging: false }];
    assert_eq!(
        battery_state(&full),
        Some(BatteryState { capacity: 100, charging: false })
    );
}

#[test]
fn disk_usage_from_space() {
    assert_eq!(
        disk_usage(1000, 250),
        DiskUsage { used: 750, total: 1000 }
    );
}

#[test]
fn battery_view_renders_icon_and_percent() {
    let st = BatteryState { capacity: 55, charging: false };
    let b = BatteryView::new(st.clone(), 0u64, GRAY).render();
    assert_eq!(b.text, format!("{} 55%", battery_icon(55, false)));
    assert_eq!(b.foreground, GRAY);
    assert_eq!(b.background, None);
    let low = BatteryState { capacity: 10, charging: true };
    let b = BatteryView::new(low, 0u64, GRAY).render();
    assert_eq!(b.background, Some(Color { red: 178, green: 34, blue: 34 }));
}

#[test]
fn battery_view_builders() {
    let st = BatteryState { capacity: 30, charging: false };
    let b = BatteryView::new(st.clone(), 0u64, GRAY).render();
    assert_eq!(b.background, None);
    let b = BatteryView::new(st.clone(), 0u64, GRAY)
        .critical_when_less_than(40)
        .critical_background(Color { red: 1, green: 1, blue: 1 })
        .render();
    assert_eq!(b.background, Some(Color { red: 1, green: 1, blue: 1 }));
}

#[test]
fn battery_icons_cover_the_range() {
    assert_eq!(battery_icon(0, false), '\u{f008e}');
    assert_eq!(battery_icon(0, true), '\u{f089f}');
    assert_eq!(battery_icon(50, false), '\u{f007e}');
    assert_eq!(battery_icon(100, false), '\u{f0079}');
    assert_eq!(battery_icon(100, true), '\u{f0085}');
}

#[test]
fn cpu_view_warns_above_threshold() {
    let b = CpuView::new(42, 0u64, GRAY).render();
    assert_eq!(b.text, "\u{f08d6} 42%");
    assert_eq!(b.background, None);
    let b = CpuView::new(99, 0u64, GRAY).render();
    assert_eq!(b.background, Some(Color { red: 178, green: 34, blue: 34 }));
    let b = CpuView::new(99, 0u64, GRAY).critical_when_more_than(99).render();
    assert_eq!(b.background, None);
}

#[test]
fn brightness_view_renders_level() {
    let info = BrightnessInfo { device: "panel0".to_string(), level: 80 };
    let b = BrightnessView::new(info, 0u64, GRAY).render();
    assert_eq!(b.text, "\u{f00e0} 80%");
}

#[test]
fn date_and_time_views_render_fixed_width() {
    let d = CalendarDate { weekday: Weekday::Saturday, month: 10, day: 11 };
    let b = DateView::new(d, 0u64, GRAY).render();
    assert_eq!(b.text, "Sat Oct 11");
    let d = CalendarDate { weekday: Weekday::Monday, month: 2, day: 3 };
    let b = DateView::new(d, 0u64, GRAY).render();
    assert_eq!(b.text, "Mon Feb 03");
    let t = ClockTime { hour: 9, minute: 5 };
    let b = TimeView::new(t, 0u64, GRAY).render();
    assert_eq!(b.text, "09:05");
    let t = ClockTime { hour: 23, minute: 59 };
    let b = TimeView::new(t, 0u64, GRAY).render();
    assert_eq!(b.text, "23:59");
}

#[test]
fn disk_view_renders_quantity_and_pie() {
    let usage = DiskUsage { used: 1_500_000_000, total: 2_000_000_000 };
    let b = DiskView::new(usage, 0u64, GRAY).render();
    assert_eq!(b.text, format!("\u{e5fe} 1.5 GB {}", pie_chart(75)));
    // Less than a gigabyte free: critical.
    assert_eq!(b.background, Some(Color { red: 178, green: 34, blue: 34 }));
    let roomy = DiskUsage { used: 1, total: 2_000_000_000 };
    let b = DiskView::new(roomy, 0u64, GRAY).render();
    assert_eq!(b.background, None);
}

#[test]
fn memory_view_renders_quantity_and_pie() {
    let usage = MemoryUsage { used: 600_000_000, total: 8_000_000_000 };
    let b = MemoryView::new(usage, 0u64, GRAY).render();
    assert_eq!(b.text, format!("\u{f1296} 600.0 MB {}", pie_chart(7)));
    assert_eq!(b.background, None);
    let tight = MemoryUsage { used: 7_900_000_000, total: 8_000_000_000 };
    let b = MemoryView::new(tight, 0u64, GRAY).render();
    assert_eq!(b.background, Some(Color { red: 178, green: 34, blue: 34 }));
}
