//! Writing records as text, and reading them back.

use crate::geometry::LineCoordinate;
use crate::record::{
    circle_r, circle_x, circle_y, spec_circle, spec_coordinate, spec_parse, spec_parse2022,
    spec_parse2023, spec_quoted, spec_region, spec_tile, CanvasRecord, ParseError, PlaceDataSet,
};
use crate::text::{
    decimal, digit_of, is_digit, lemma_digits_run, spec_find, spec_int16, spec_int16_then,
    spec_starts,
};
use vstd::prelude::*;

verus! {

/// The digit that stands for `d`.
pub open spec fn digit_char(d: int) -> char {
    ((d + 48) as u8) as char
}

/// The digits of `n` in base ten, without leading zeros.
pub open spec fn digits(n: nat) -> Seq<char>
    decreases n,
{
    if n < 10 {
        seq![digit_char(n as int)]
    } else {
        digits(n / 10).push(digit_char((n % 10) as int))
    }
}

/// The number `v` in text: a minus sign where it is negative, then its
/// digits.
pub open spec fn number(v: int) -> Seq<char> {
    if v < 0 {
        seq!['-'] + digits((-v) as nat)
    } else {
        digits(v as nat)
    }
}

proof fn lemma_digit_char(d: int)
    requires
        0 <= d < 10,
    ensures
        is_digit(digit_char(d)),
        digit_of(digit_char(d)) == d,
        digit_char(d) != '-',
        digit_char(d) != '+',
        digit_char(d) != ',',
        digit_char(d) != '"',
{
}

/// The text of a number is made of digits, one at least.
proof fn lemma_digits_are_digits(n: nat)
    ensures
        digits(n).len() >= 1,
        forall|k: int| 0 <= k < digits(n).len() ==> is_digit(#[trigger] digits(n)[k]),
    decreases n,
{
    if n < 10 {
        lemma_digit_char(n as int);
    } else {
        lemma_digits_are_digits(n / 10);
        lemma_digit_char((n % 10) as int);
    }
}

/// Where `word` stands in `s` at `at`, its characters are those of `s` from
/// `at` on.
proof fn lemma_starts_index(s: Seq<char>, at: int, word: Seq<char>, k: int)
    requires
        spec_starts(s, at, word),
        0 <= k < word.len(),
    ensures
        s[at + k] == word[k],
{
    assert(s.subrange(at, at + word.len())[k] == s[at + k]);
}

/// Where a word stands, each part of it stands at its place.
proof fn lemma_starts_part(s: Seq<char>, at: int, word: Seq<char>, from: int, to: int)
    requires
        spec_starts(s, at, word),
        0 <= from <= to <= word.len(),
    ensures
        spec_starts(s, at + from, word.subrange(from, to)),
{
    assert forall|k: int| 0 <= k < to - from implies s.subrange(at + from, at + to)[k]
        == word.subrange(from, to)[k] by {
        lemma_starts_index(s, at, word, from + k);
    }
    assert(s.subrange(at + from, at + from + (to - from)) =~= word.subrange(from, to));
}

/// The digits of a number write that number.
proof fn lemma_decimal_of_digits(s: Seq<char>, at: int, n: nat)
    requires
        spec_starts(s, at, digits(n)),
    ensures
        decimal(s, at, at + digits(n).len()) == n,
    decreases n,
{
    let word = digits(n);
    if n < 10 {
        lemma_starts_index(s, at, word, 0);
        lemma_digit_char(n as int);
        assert(decimal(s, at, at) == 0);
        assert(decimal(s, at, at + 1) == 10 * decimal(s, at, at) + digit_of(s[at]));
    } else {
        let front = digits(n / 10);
        lemma_digits_are_digits(n / 10);
        lemma_starts_part(s, at, word, 0, front.len() as int);
        assert(word.subrange(0, front.len() as int) =~= front);
        lemma_decimal_of_digits(s, at, n / 10);
        lemma_starts_index(s, at, word, front.len() as int);
        lemma_digit_char((n % 10) as int);
        assert(decimal(s, at, at + word.len()) == 10 * decimal(s, at, at + word.len() - 1)
            + digit_of(s[at + word.len() - 1]));
    }
}

/// A number in text, with no digit behind it, is read as that number.
pub proof fn lemma_read_number(s: Seq<char>, at: int, v: i16)
    requires
        spec_starts(s, at, number(v as int)),
        at + number(v as int).len() == s.len() || !is_digit(s[at + number(v as int).len()]),
    ensures
        spec_int16(s, at) == Some((v, at + number(v as int).len())),
{
    let word = number(v as int);
    let n: nat = if v < 0 { (-v) as nat } else { v as nat };
    let start = if v < 0 { at + 1 } else { at };
    lemma_digits_are_digits(n);
    if v < 0 {
        lemma_starts_index(s, at, word, 0);
        lemma_starts_part(s, at, word, 1, word.len() as int);
        assert(word.subrange(1, word.len() as int) =~= digits(n));
    } else {
        lemma_starts_index(s, at, word, 0);
        assert(is_digit(s[at]));
    }
    assert(spec_starts(s, start, digits(n)));
    assert forall|k: int| start <= k < start + digits(n).len() implies is_digit(
        #[trigger] s[k],
    ) by {
        lemma_starts_index(s, start, digits(n), k - start);
    }
    lemma_digits_run(s, start, start + digits(n).len());
    lemma_decimal_of_digits(s, start, n);
}

/// A number in text with the character `c`, which is no digit, behind it.
pub proof fn lemma_read_number_then(s: Seq<char>, at: int, v: i16, c: char)
    requires
        spec_starts(s, at, number(v as int).push(c)),
        !is_digit(c),
    ensures
        spec_int16_then(s, at, c) == Some((v, at + number(v as int).len() + 1)),
{
    let word = number(v as int).push(c);
    lemma_starts_part(s, at, word, 0, word.len() - 1);
    assert(word.subrange(0, word.len() - 1) =~= number(v as int));
    lemma_starts_index(s, at, word, word.len() - 1);
    lemma_read_number(s, at, v);
}

/// The placement in text: `x,y` for a tile, `left,top,right,bottom` for a
/// rectangle, `{X: x, Y: y, R: r}` for a circle.
pub open spec fn shape_text(shape: LineCoordinate) -> Seq<char> {
    match shape {
        LineCoordinate::Tile(t) => number(t.x as int).push(',') + number(t.y as int),
        LineCoordinate::Region(r) => number(r.left as int).push(',') + number(r.top as int).push(
            ',',
        ) + number(r.right as int).push(',') + number(r.bottom as int),
        LineCoordinate::Circle(c) => circle_x() + number(c.x as int).push(',') + circle_y()
            + number(c.y as int).push(',') + circle_r() + number(c.r as int).push('}'),
    }
}

/// The record as a line in the layout of 2022.
pub open spec fn line2022(record: CanvasRecord) -> Seq<char> {
    record.timestamp.push(',') + record.user_id.push(',') + record.pixel_color.push(',')
        + seq!['"'] + shape_text(record.coordinate).push('"')
}

/// The record as a line in the layout of 2023.
pub open spec fn line2023(record: CanvasRecord) -> Seq<char> {
    record.timestamp.push(',') + record.user_id.push(',') + seq!['"'] + shape_text(
        record.coordinate,
    ).push('"') + seq![','] + record.pixel_color
}

/// Where two words stand one behind the other, each stands at its place.
proof fn lemma_starts_both(s: Seq<char>, at: int, a: Seq<char>, b: Seq<char>)
    requires
        spec_starts(s, at, a + b),
    ensures
        spec_starts(s, at, a),
        spec_starts(s, at + a.len(), b),
{
    lemma_starts_part(s, at, a + b, 0, a.len() as int);
    lemma_starts_part(s, at, a + b, a.len() as int, (a + b).len() as int);
    assert((a + b).subrange(0, a.len() as int) =~= a);
    assert((a + b).subrange(a.len() as int, (a + b).len() as int) =~= b);
}

/// The first `c` from `at` on is the one before which there is none.
proof fn lemma_find(s: Seq<char>, at: int, i: int, c: char)
    requires
        0 <= at <= i < s.len(),
        s[i] == c,
        forall|k: int| at <= k < i ==> s[k] != c,
    ensures
        spec_find(s, at, c) == Some(i),
    decreases i - at,
{
    if at < i {
        lemma_find(s, at + 1, i, c);
    }
}

/// A tile in text, with a double quote behind it, is read as that tile, and
/// not as a rectangle.
proof fn lemma_read_tile(s: Seq<char>, at: int, shape: LineCoordinate)
    requires
        shape is Tile,
        spec_starts(s, at, shape_text(shape).push('"')),
    ensures
        spec_region(s, at) is None,
        spec_tile(s, at) == Some((shape, at + shape_text(shape).len())),
{
    let t = shape->Tile_0;
    let first = number(t.x as int).push(',');
    let second = number(t.y as int).push('"');
    assert(shape_text(shape).push('"') =~= first + second);
    lemma_starts_both(s, at, first, second);
    lemma_read_number_then(s, at, t.x, ',');
    lemma_read_number_then(s, at + first.len(), t.y, '"');
}

/// A rectangle in text, with a double quote behind it, is read as that
/// rectangle.
proof fn lemma_read_region(s: Seq<char>, at: int, shape: LineCoordinate)
    requires
        shape is Region,
        spec_starts(s, at, shape_text(shape).push('"')),
    ensures
        spec_region(s, at) == Some((shape, at + shape_text(shape).len())),
{
    let r = shape->Region_0;
    let first = number(r.left as int).push(',');
    let second = number(r.top as int).push(',');
    let third = number(r.right as int).push(',');
    let fourth = number(r.bottom as int).push('"');
    assert(shape_text(shape).push('"') =~= first + second + third + fourth);
    lemma_starts_both(s, at, first + second + third, fourth);
    lemma_starts_both(s, at, first + second, third);
    lemma_starts_both(s, at, first, second);
    lemma_read_number_then(s, at, r.left, ',');
    lemma_read_number_then(s, at + first.len(), r.top, ',');
    lemma_read_number_then(s, at + first.len() + second.len(), r.right, ',');
    lemma_read_number_then(s, at + first.len() + second.len() + third.len(), r.bottom, '"');
}

/// A circle in text is read as that circle, and neither as a rectangle nor
/// as a tile.
proof fn lemma_read_circle(s: Seq<char>, at: int, shape: LineCoordinate)
    requires
        shape is Circle,
        spec_starts(s, at, shape_text(shape).push('"')),
    ensures
        spec_region(s, at) is None,
        spec_tile(s, at) is None,
        spec_circle(s, at) == Some((shape, at + shape_text(shape).len())),
{
    let c = shape->Circle_0;
    let x = number(c.x as int).push(',');
    let y = number(c.y as int).push(',');
    let r = number(c.r as int).push('}');
    let last = seq!['"'];
    assert(shape_text(shape).push('"') =~= circle_x() + x + circle_y() + y + circle_r() + r
        + last);
    lemma_starts_both(s, at, circle_x() + x + circle_y() + y + circle_r() + r, last);
    lemma_starts_both(s, at, circle_x() + x + circle_y() + y + circle_r(), r);
    lemma_starts_both(s, at, circle_x() + x + circle_y() + y, circle_r());
    lemma_starts_both(s, at, circle_x() + x + circle_y(), y);
    lemma_starts_both(s, at, circle_x() + x, circle_y());
    lemma_starts_both(s, at, circle_x(), x);
    lemma_starts_index(s, at, circle_x(), 0);
    assert(s[at] == '{');
    assert(spec_int16(s, at) is None);
    lemma_read_number_then(s, at + 4, c.x, ',');
    lemma_read_number_then(s, at + 4 + x.len() + 4, c.y, ',');
    lemma_read_number_then(s, at + 4 + x.len() + 4 + y.len() + 4, c.r, '}');
}

/// A placement in text, with a double quote behind it, is read as that
/// placement.
pub proof fn lemma_read_shape(s: Seq<char>, at: int, shape: LineCoordinate)
    requires
        spec_starts(s, at, shape_text(shape).push('"')),
    ensures
        spec_coordinate(s, at) == Some((shape, at + shape_text(shape).len())),
        s[at + shape_text(shape).len()] == '"',
{
    lemma_starts_index(s, at, shape_text(shape).push('"'), shape_text(shape).len() as int);
    match shape {
        LineCoordinate::Tile(_) => lemma_read_tile(s, at, shape),
        LineCoordinate::Region(_) => lemma_read_region(s, at, shape),
        LineCoordinate::Circle(_) => lemma_read_circle(s, at, shape),
    }
}

/// A field without a comma, with a comma behind it, ends at that comma.
proof fn lemma_read_field(s: Seq<char>, at: int, field: Seq<char>)
    requires
        spec_starts(s, at, field.push(',')),
        !field.contains(','),
    ensures
        spec_find(s, at, ',') == Some(at + field.len()),
        s.subrange(at, at + field.len()) == field,
{
    let word = field.push(',');
    assert forall|k: int| at <= k < at + field.len() implies s[k] != ',' by {
        lemma_starts_index(s, at, word, k - at);
        assert(field[k - at] == word[k - at]);
        assert(field.contains(field[k - at]));
    }
    lemma_starts_index(s, at, word, field.len() as int);
    lemma_find(s, at, at + field.len(), ',');
    lemma_starts_part(s, at, word, 0, field.len() as int);
    assert(word.subrange(0, field.len() as int) =~= field);
}

/// Reading gives back what was written, in the layout of 2022: a record
/// whose time, author and colour hold no comma, written as a line, is read
/// as that record.
pub proof fn lemma_parse2022_reads_back(record: CanvasRecord)
    requires
        !record.timestamp.contains(','),
        !record.user_id.contains(','),
        !record.pixel_color.contains(','),
    ensures
        spec_parse2022(line2022(record)) == Ok::<CanvasRecord, ParseError>(record),
{
    let s = line2022(record);
    let time = record.timestamp.push(',');
    let author = record.user_id.push(',');
    let colour = record.pixel_color.push(',');
    let quote = seq!['"'];
    let shape = shape_text(record.coordinate).push('"');
    assert(s.subrange(0, s.len() as int) =~= s);
    assert(spec_starts(s, 0, time + author + colour + quote + shape));
    lemma_starts_both(s, 0, time + author + colour + quote, shape);
    lemma_starts_both(s, 0, time + author + colour, quote);
    lemma_starts_both(s, 0, time + author, colour);
    lemma_starts_both(s, 0, time, author);
    let a = record.timestamp.len() as int;
    let b = a + 1 + record.user_id.len();
    let c = b + 1 + record.pixel_color.len();
    lemma_read_field(s, 0, record.timestamp);
    lemma_read_field(s, a + 1, record.user_id);
    lemma_read_field(s, b + 1, record.pixel_color);
    lemma_starts_index(s, c + 1, quote, 0);
    lemma_read_shape(s, c + 2, record.coordinate);
    assert(spec_quoted(s, c + 1) == Some(
        (record.coordinate, c + 2 + shape_text(record.coordinate).len() + 1),
    ));
}

/// Reading gives back what was written, in the layout of 2023: a record
/// whose time and author hold no comma and whose colour has seven
/// characters, written as a line, is read as that record.
pub proof fn lemma_parse2023_reads_back(record: CanvasRecord)
    requires
        !record.timestamp.contains(','),
        !record.user_id.contains(','),
        record.pixel_color.len() == 7,
    ensures
        spec_parse2023(line2023(record)) == Ok::<CanvasRecord, ParseError>(record),
{
    let s = line2023(record);
    let time = record.timestamp.push(',');
    let author = record.user_id.push(',');
    let quote = seq!['"'];
    let shape = shape_text(record.coordinate).push('"');
    let comma = seq![','];
    let colour = record.pixel_color;
    assert(s.subrange(0, s.len() as int) =~= s);
    assert(spec_starts(s, 0, time + author + quote + shape + comma + colour));
    lemma_starts_both(s, 0, time + author + quote + shape + comma, colour);
    lemma_starts_both(s, 0, time + author + quote + shape, comma);
    lemma_starts_both(s, 0, time + author + quote, shape);
    lemma_starts_both(s, 0, time + author, quote);
    lemma_starts_both(s, 0, time, author);
    let a = record.timestamp.len() as int;
    let b = a + 1 + record.user_id.len();
    let end = b + 2 + shape_text(record.coordinate).len() + 1;
    lemma_read_field(s, 0, record.timestamp);
    lemma_read_field(s, a + 1, record.user_id);
    lemma_starts_index(s, b + 1, quote, 0);
    lemma_read_shape(s, b + 2, record.coordinate);
    assert(spec_quoted(s, b + 1) == Some((record.coordinate, end)));
    lemma_starts_index(s, end, comma, 0);
    assert(s.subrange(end + 1, end + 8) =~= colour);
}

/// A line without a double quote is no record, in either layout: the
/// placement is missing, if not a field before it.
pub proof fn lemma_unquoted_is_no_record(s: Seq<char>, year: PlaceDataSet)
    requires
        !s.contains('"'),
    ensures
        spec_parse(s, year) is Err,
{
    assert forall|at: int| spec_quoted(s, at) is None by {
        if 0 <= at < s.len() {
            assert(s.contains(s[at]));
        }
    }
}

/// A line without a comma is no record, in either layout: nothing ends the
/// time.
pub proof fn lemma_one_field_is_no_record(s: Seq<char>, year: PlaceDataSet)
    requires
        !s.contains(','),
    ensures
        spec_parse(s, year) == Err::<CanvasRecord, ParseError>(ParseError::Timestamp),
{
    lemma_not_found(s, 0, ',');
}

/// A character that a line does not hold is not found in it.
proof fn lemma_not_found(s: Seq<char>, at: int, c: char)
    requires
        !s.contains(c),
    ensures
        spec_find(s, at, c) is None,
    decreases s.len() - at,
{
    if 0 <= at < s.len() {
        assert(s.contains(s[at]));
        lemma_not_found(s, at + 1, c);
    }
}

} // verus!
