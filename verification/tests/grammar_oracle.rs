//! The grammar of the records, put together a second time from parser
//! combinators, and held against the library on many lines.

use canvas_trace::geometry::{LineCoordinate, TileCircle, TileLocation, TileRegion};
use canvas_trace::record::CanvasLine;
use nom::branch::alt;
use nom::bytes::complete::{tag, take, take_until};
use nom::character::complete::{char as one, i16 as number};
use nom::combinator::eof;
use nom::sequence::{delimited, terminated};
use nom::IResult;

type Fields = (String, String, String, LineCoordinate);

fn oracle_tile(input: &str) -> IResult<&str, LineCoordinate> {
    let (rest, x) = terminated(number, one(','))(input)?;
    let (rest, y) = number(rest)?;
    Ok((rest, LineCoordinate::Tile(TileLocation { x, y })))
}

fn oracle_region(input: &str) -> IResult<&str, LineCoordinate> {
    let (rest, left) = terminated(number, one(','))(input)?;
    let (rest, top) = terminated(number, one(','))(rest)?;
    let (rest, right) = terminated(number, one(','))(rest)?;
    let (rest, bottom) = number(rest)?;
    Ok((rest, LineCoordinate::Region(TileRegion { top, left, bottom, right })))
}

fn oracle_circle(input: &str) -> IResult<&str, LineCoordinate> {
    let (rest, _) = tag("{X: ")(input)?;
    let (rest, x) = terminated(number, one(','))(rest)?;
    let (rest, _) = tag(" Y: ")(rest)?;
    let (rest, y) = terminated(number, one(','))(rest)?;
    let (rest, _) = tag(" R: ")(rest)?;
    let (rest, r) = terminated(number, one('}'))(rest)?;
    Ok((rest, LineCoordinate::Circle(TileCircle { x, y, r })))
}

fn oracle_shape(input: &str) -> IResult<&str, LineCoordinate> {
    delimited(one('"'), alt((oracle_region, oracle_tile, oracle_circle)), one('"'))(input)
}

fn oracle_field(input: &str) -> IResult<&str, &str> {
    terminated(take_until(","), one(','))(input)
}

fn oracle_2022(input: &str) -> Option<Fields> {
    let (rest, time) = oracle_field(input).ok()?;
    let (rest, author) = oracle_field(rest).ok()?;
    let (rest, colour) = oracle_field(rest).ok()?;
    let (_, shape) = oracle_shape(rest).ok()?;
    Some((time.to_string(), author.to_string(), colour.to_string(), shape))
}

fn oracle_2023(input: &str) -> Option<Fields> {
    let (rest, time) = oracle_field(input).ok()?;
    let (rest, author) = oracle_field(rest).ok()?;
    let (rest, shape) = oracle_shape(rest).ok()?;
    let colour: IResult<&str, &str> = delimited(one(','), take(7usize), eof)(rest);
    let (_, colour) = colour.ok()?;
    Some((time.to_string(), author.to_string(), colour.to_string(), shape))
}

fn fields(parsed: Option<CanvasLine>) -> Option<Fields> {
    parsed.map(|line| (line.timestamp, line.user_id, line.pixel_color, line.coordinate))
}

fn agree(line: &str) {
    assert_eq!(fields(CanvasLine::parse2022(line).ok()), oracle_2022(line), "2022: {:?}", line);
    assert_eq!(fields(CanvasLine::parse2023(line).ok()), oracle_2023(line), "2023: {:?}", line);
}

/// A small generator of numbers that gives the same numbers on every run.
struct Dice(u64);

impl Dice {
    fn roll(&mut self, sides: usize) -> usize {
        self.0 = self.0.wrapping_mul(6364136223846793005).wrapping_add(1442695040888963407);
        ((self.0 >> 33) as usize) % sides
    }
}

const LETTERS: [char; 24] = [
    '0', '1', '2', '3', '7', '9', ',', ',', '"', '"', '-', '+', '{', '}', 'X', 'Y', 'R', ':', ' ',
    '#', 'a', 'ü', '.', 'F',
];

const SEEDS: [&str; 16] = [
    "2022-04-04 00:55:57.168 UTC,author,#6A5CFF,\"1908,1854\"",
    "2022-04-04 00:55:57.168 UTC,author,#6A5CFF,\"1349,1718,1424,1752\"",
    "2022-04-04 00:55:57.168 UTC,author,#6A5CFF,\"{X: 425, Y: 441, R: 2}\"",
    "2023-07-20 18:55:57.168 UTC,author,\"1908,1854\",#6A5CFF",
    "2023-07-20 18:55:57.168 UTC,author,\"-1349,-1718,1424,1752\",#6A5CFF",
    "2023-07-20 18:55:57.168 UTC,author,\"{X: 481, Y: -416, R: 3}\",#6A5CFF",
    "t,u,c,\"32767,-32768\"",
    "t,u,\"32767,-32768\",1234567",
    "t,u,c,\"+1,+2,+3,+4\"",
    "t,u,\"0001,0002\",#FFFFFF",
    ",,,\"0,0\"",
    ",,\"0,0\",#000000",
    "t,u,c,\"1,2,3\"",
    "t,u,c,\"1,2,3,4,5\"",
    "t,u,c,\"32768,0\"",
    "t,u,\"{X: 1, Y: 2, R: 99999}\",#FFFFFF",
];

#[test]
fn library_and_oracle_agree_on_the_seeds() {
    for line in SEEDS {
        agree(line);
    }
    assert!(oracle_2022(SEEDS[0]).is_some());
    assert!(oracle_2023(SEEDS[3]).is_some());
    assert!(oracle_2022(SEEDS[3]).is_none());
    assert!(oracle_2023(SEEDS[0]).is_none());
}

#[test]
fn library_and_oracle_agree_on_every_prefix_and_suffix() {
    for line in SEEDS {
        let letters: Vec<char> = line.chars().collect();
        for cut in 0..=letters.len() {
            let head: String = letters[..cut].iter().collect();
            let tail: String = letters[cut..].iter().collect();
            agree(&head);
            agree(&tail);
        }
    }
}

#[test]
fn library_and_oracle_agree_on_changed_lines() {
    let mut dice = Dice(2022);
    for round in 0..6000 {
        let seed = SEEDS[round % SEEDS.len()];
        let mut letters: Vec<char> = seed.chars().collect();
        let changes = 1 + dice.roll(3);
        for _ in 0..changes {
            let place = dice.roll(letters.len() + 1);
            let letter = LETTERS[dice.roll(LETTERS.len())];
            match dice.roll(3) {
                0 => letters.insert(place, letter),
                1 => {
                    if place < letters.len() {
                        letters.remove(place);
                    }
                },
                _ => {
                    if place < letters.len() {
                        letters[place] = letter;
                    }
                },
            }
        }
        let line: String = letters.iter().collect();
        agree(&line);
    }
}

#[test]
fn library_and_oracle_agree_on_random_lines() {
    let mut dice = Dice(2023);
    for _ in 0..6000 {
        let length = dice.roll(30);
        let mut line = String::new();
        for _ in 0..length {
            line.push(LETTERS[dice.roll(LETTERS.len())]);
        }
        agree(&line);
    }
}

#[test]
fn library_and_oracle_agree_on_random_placements() {
    let mut dice = Dice(7);
    let pieces = [
        "0", "1", "-1", "+7", "32767", "32768", "-32768", "-32769", "007", ",", ",", ",", "\"",
        "{X: ", " Y: ", " R: ", "}", " ", "-", "",
    ];
    for _ in 0..6000 {
        let mut shape = String::new();
        for _ in 0..(1 + dice.roll(9)) {
            shape.push_str(pieces[dice.roll(pieces.len())]);
        }
        agree(&format!("t,u,c,\"{}\"", shape));
        agree(&format!("t,u,\"{}\",#FFFFFF", shape));
    }
}
