use feedback_ui::files::{File, FileOrFolder, Folder};
use feedback_ui::message_box::{dialog_rect, MessageBox};
use tui::buffer::Buffer;
use tui::layout::Rect;
use tui::style::Color;

fn row_text(buf: &Buffer, y: u16) -> String {
    let area = buf.area;
    let mut row = String::new();
    for x in area.x..area.x + area.width {
        row.push_str(&buf.get(x, y).symbol);
    }
    row
}

/// The column (cell index, not byte index) where `needle` starts in a row.
fn column_of(row: &str, needle: &str) -> u16 {
    let byte_index = row.find(needle).unwrap();
    row[..byte_index].chars().count() as u16
}

#[test]
fn box_is_capped_at_150_columns() {
    let (x, y, width, height) = dialog_rect(Rect::new(0, 0, 200, 40));
    assert_eq!(width, 150);
    assert_eq!(height, 10);
    assert_eq!(x, 200 / 2 - 150 / 2);
    assert_eq!(y, 40 / 2 - 10 / 2);
    let (_, _, width, height) = dialog_rect(Rect::new(0, 0, 151, 12));
    assert_eq!(width, 150);
    assert_eq!(height, 10);
}

#[test]
fn box_is_half_the_region_up_to_150_columns() {
    let (_, _, width, height) = dialog_rect(Rect::new(0, 0, 150, 40));
    assert_eq!(width, 75);
    assert_eq!(height, 10);
    let (_, _, width, _) = dialog_rect(Rect::new(0, 0, 100, 40));
    assert_eq!(width, 50);
    let (_, _, width, _) = dialog_rect(Rect::new(0, 0, 51, 11));
    assert_eq!(width, 25);
}

#[test]
fn box_is_contained_in_the_region() {
    for region_width in 51u16..=300 {
        let (x, y, width, height) = dialog_rect(Rect::new(0, 0, region_width, 24));
        assert!(x + width < region_width, "width {}", region_width);
        assert!(y + height < 24);
    }
}

#[test]
fn dialog_paints_border_fill_and_text() {
    let area = Rect::new(0, 0, 100, 30);
    let mut buf = Buffer::empty(area);
    let path = String::from("/home/someone");
    let entry = FileOrFolder::File(File {
        name: String::from("notes.txt"),
    });
    MessageBox::new(&entry, &path).draw(area, &mut buf);

    // box: width 50, height 10, centered
    let (bx, by) = (25u16, 10u16);
    assert_eq!(buf.get(bx, by).symbol, "┌");
    assert_eq!(buf.get(bx + 50, by).symbol, "┐");
    assert_eq!(buf.get(bx, by + 10).symbol, "└");
    assert_eq!(buf.get(bx + 50, by + 10).symbol, "┘");
    assert_eq!(buf.get(bx + 1, by).symbol, "─");
    assert_eq!(buf.get(bx, by + 1).symbol, "│");
    assert_eq!(buf.get(bx + 50, by + 9).symbol, "│");
    assert_eq!(buf.get(bx, by).bg, Color::Red);

    // interior is a red-on-red blank
    let fill = buf.get(bx + 1, by + 1);
    assert_eq!(fill.symbol, " ");
    assert_eq!(fill.fg, Color::Red);
    assert_eq!(fill.bg, Color::Red);

    // untouched cells keep their default content
    assert_eq!(buf.get(0, 0).symbol, " ");
    assert_eq!(buf.get(0, 0).bg, Color::Reset);
    assert_eq!(buf.get(bx + 51, by).bg, Color::Reset);

    // the three lines sit on the rows 2, 5 and 8 below the box's top
    let question_row = row_text(&buf, by + 2);
    assert!(question_row.contains("Delete this file?"));
    let name_row = row_text(&buf, by + 5);
    assert!(name_row.contains("/home/someone/notes.txt"));
    let confirm_row = row_text(&buf, by + 8);
    assert!(confirm_row.contains("(y/n)"));
    let text = buf.get(column_of(&confirm_row, "(y/n)"), by + 8);
    assert_eq!(text.fg, Color::White);
    assert_eq!(text.bg, Color::Red);
}

#[test]
fn long_names_are_truncated_to_the_usable_width() {
    let area = Rect::new(0, 0, 60, 20);
    let mut buf = Buffer::empty(area);
    let path = String::from("/a/b");
    let entry = FileOrFolder::Folder(Folder {
        name: String::from("very-long-filename-that-does-not-fit"),
        num_descendants: 42,
    });
    MessageBox::new(&entry, &path).draw(area, &mut buf);

    // box width 30, usable width 26: the full path (41 chars) cannot fit,
    // so the bare name is truncated to exactly the usable width
    let name_row = row_text(&buf, 5 + 5);
    assert!(name_row.contains("[..]"));
    let expected = feedback_ui::textfmt::truncate_middle("very-long-filename-that-does-not-fit", 26);
    assert_eq!(expected.len(), 26);
    assert!(name_row.contains(expected.as_str()));
    // question falls back to the short form (usable 26 < 31)
    assert!(row_text(&buf, 5 + 2).contains("Delete folder?"));
}

#[test]
fn lines_are_centered_by_the_ceil_formula() {
    // box widths 50, 51 and 150, from region widths 100, 102+1 and 300
    for (region_width, box_width) in [(100u16, 50u16), (103, 51), (300, 150)] {
        let area = Rect::new(0, 0, region_width, 24);
        let mut buf = Buffer::empty(area);
        let path = String::from("/p");
        let entry = FileOrFolder::File(File {
            name: String::from("f"),
        });
        MessageBox::new(&entry, &path).draw(area, &mut buf);
        let (bx, _, bw, _) = dialog_rect(area);
        assert_eq!(bw, box_width);

        let confirm_row = row_text(&buf, 12 + 3);
        let start = column_of(&confirm_row, "(y/n)");
        let len = 5u16;
        let expected = ((bw - len) as f64 / 2.0).ceil() as u16 + bx;
        assert_eq!(start, expected, "box width {}", bw);
        assert!(start + len <= bx + bw);

        let question_row = row_text(&buf, 12 - 3);
        let qstart = column_of(&question_row, "Delete this file?");
        let qexpected = ((bw - 17) as f64 / 2.0).ceil() as u16 + bx;
        assert_eq!(qstart, qexpected);
    }
}
