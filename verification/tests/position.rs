use house_rules::position::{
    offset_in, position_of, resolve_offset, try_resolve_offset, SourcePosition,
};

fn at(line: usize, column: usize) -> SourcePosition {
    SourcePosition { line, column }
}

#[test]
fn first_line_resolves_to_its_column() {
    let text = "fn main() {}\n";
    assert_eq!(try_resolve_offset(text, at(1, 0)), Some(0));
    assert_eq!(try_resolve_offset(text, at(1, 3)), Some(3));
    assert_eq!(resolve_offset(text, at(1, 3)), 3);
}

#[test]
fn later_line_adds_the_lines_before_it() {
    let text = "ab\ncde\nf";
    assert_eq!(resolve_offset(text, at(2, 0)), 3);
    assert_eq!(resolve_offset(text, at(2, 2)), 5);
    assert_eq!(resolve_offset(text, at(3, 0)), 7);
    assert_eq!(resolve_offset(text, at(3, 1)), 8);
}

#[test]
fn resolved_offset_indexes_the_byte_at_line_and_column() {
    let text = "fn a() {}\nfn compute() {\n    unsafe {}\n}\n";
    let offset = resolve_offset(text, at(3, 4));
    assert_eq!(offset, 29);
    assert_eq!(&text[offset..offset + 6], "unsafe");
    let name = resolve_offset(text, at(2, 3));
    assert_eq!(&text[name..name + 7], "compute");
}

#[test]
fn empty_lines_count_for_one_byte_each() {
    let text = "\n\n\nx";
    assert_eq!(resolve_offset(text, at(4, 0)), 3);
    assert_eq!(position_of(text, 3), Some(at(4, 0)));
}

#[test]
fn line_after_a_final_newline_exists_and_is_empty() {
    let text = "a\n";
    assert_eq!(try_resolve_offset(text, at(2, 0)), Some(2));
    assert_eq!(try_resolve_offset(text, at(3, 0)), None);
}

#[test]
fn empty_text_has_one_line() {
    assert_eq!(try_resolve_offset("", at(1, 0)), Some(0));
    assert_eq!(try_resolve_offset("", at(2, 0)), None);
    assert_eq!(position_of("", 0), Some(at(1, 0)));
    assert_eq!(position_of("", 1), None);
}

#[test]
fn line_zero_does_not_resolve() {
    assert_eq!(try_resolve_offset("abc", at(0, 0)), None);
    assert_eq!(try_resolve_offset("abc", at(0, 2)), None);
}

#[test]
fn line_beyond_the_text_does_not_resolve() {
    let text = "one\ntwo\nthree";
    assert_eq!(try_resolve_offset(text, at(3, 0)), Some(8));
    assert_eq!(try_resolve_offset(text, at(4, 0)), None);
    assert_eq!(try_resolve_offset(text, at(100, 7)), None);
}

#[test]
fn column_is_added_even_beyond_the_line() {
    let text = "ab\ncd";
    assert_eq!(try_resolve_offset(text, at(1, 10)), Some(10));
    assert_eq!(try_resolve_offset(text, at(2, 10)), Some(13));
}

#[test]
fn offset_that_overflows_does_not_resolve() {
    let text = "ab\ncd";
    assert_eq!(try_resolve_offset(text, at(1, usize::MAX)), Some(usize::MAX));
    assert_eq!(try_resolve_offset(text, at(2, usize::MAX)), None);
    assert_eq!(try_resolve_offset(text, at(2, usize::MAX - 3)), Some(usize::MAX));
}

#[test]
fn two_byte_terminators_make_the_offset_fall_short() {
    let text = "ab\r\ncd\r\nef";
    // The lines before count for their stripped length and one more each.
    assert_eq!(resolve_offset(text, at(2, 0)), 3);
    assert_eq!(resolve_offset(text, at(3, 0)), 6);
    assert_eq!(resolve_offset(text, at(3, 1)), 7);
    // The byte at line 3, column 0 is at index 8.
    assert_eq!(position_of(text, 8), Some(at(3, 0)));
    assert_eq!(position_of(text, 6), Some(at(2, 2)));
}

#[test]
fn carriage_return_alone_is_part_of_the_line() {
    let text = "a\rb\nc";
    assert_eq!(resolve_offset(text, at(2, 0)), 4);
    let lone = "\r\nx";
    assert_eq!(resolve_offset(lone, at(2, 0)), 1);
}

#[test]
fn lengths_are_counted_in_bytes() {
    let text = "é\nx";
    assert_eq!(text.len(), 4);
    assert_eq!(resolve_offset(text, at(2, 0)), 3);
    assert_eq!(offset_in(text.as_bytes(), at(2, 0)), Some(3));
}

#[test]
fn position_of_counts_newlines_and_distance_from_line_start() {
    let text = "ab\ncde\nf";
    assert_eq!(position_of(text, 0), Some(at(1, 0)));
    assert_eq!(position_of(text, 2), Some(at(1, 2)));
    assert_eq!(position_of(text, 3), Some(at(2, 0)));
    assert_eq!(position_of(text, 6), Some(at(2, 3)));
    assert_eq!(position_of(text, 7), Some(at(3, 0)));
    assert_eq!(position_of(text, 8), Some(at(3, 1)));
    assert_eq!(position_of(text, 9), None);
}

#[test]
fn resolving_and_locating_round_trips_on_every_position() {
    let text = "fn a() {}\n\n    let x = 1;\nend";
    let line_lengths = [9usize, 0, 14, 3];
    for (index, length) in line_lengths.iter().enumerate() {
        for column in 0..=*length {
            let position = at(index + 1, column);
            let offset = resolve_offset(text, position);
            assert_eq!(position_of(text, offset), Some(position));
        }
    }
}

#[test]
fn round_trip_fails_after_a_two_byte_terminator() {
    let text = "a\r\nb";
    let offset = resolve_offset(text, at(2, 0));
    assert_eq!(offset, 2);
    assert_eq!(position_of(text, offset), Some(at(1, 2)));
}
