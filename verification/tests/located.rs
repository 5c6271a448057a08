use nom::bytes::complete::tag;
use nom::error::{make_error, ErrorKind};
use nom::{IResult, InputLength, InputTake};
use nom_locate::LocatedSpan;
use nom_packrat::protocol::{after, lookup};
use nom_packrat::{CacheKey, Cursor, HasExtraState, PackratStorage, Phase, Position};
use std::cell::{Cell, RefCell};

#[derive(Clone, Copy, Debug, PartialEq)]
struct Dialect {
    keyword: &'static str,
    version: u8,
}

impl HasExtraState<u8> for Dialect {
    fn get_extra_state(&self) -> u8 {
        self.version
    }
}

type Span<'a> = LocatedSpan<&'a str, Dialect>;

struct Memo {
    storage: RefCell<PackratStorage<String, u8>>,
    bodies: Cell<u32>,
}

fn cursor(span: &Span) -> Cursor<()> {
    Cursor::at(0, span.location_offset(), span.input_len(), ()).unwrap()
}

fn keyword<'a>(memo: &Memo, input: Span<'a>) -> IResult<Span<'a>, String> {
    let at = cursor(&input);
    let key: CacheKey<u8> = CacheKey::of("keyword", at.position(), &input);
    let phase = lookup(&memo.storage.borrow(), &key, at);
    match phase {
        Phase::Accepted(later, value) => {
            let (rest, _) = input.take_split(input.input_len() - later.remaining());
            Ok((rest, value))
        }
        Phase::Rejected(_) => Err(nom::Err::Error(make_error(input, ErrorKind::Fix))),
        Phase::Run(_) => {
            memo.bodies.set(memo.bodies.get() + 1);
            let ran = tag(input.extra.keyword)(input).map(|(rest, word): (Span, Span)| {
                (rest, word.fragment().to_uppercase())
            });
            let outcome = match &ran {
                Ok((rest, value)) => Ok((cursor(rest), value.clone())),
                Err(_) => Err(()),
            };
            let _ = after(&mut memo.storage.borrow_mut(), key, outcome);
            ran
        }
    }
}

#[test]
fn a_span_is_replayed_with_its_place_in_the_input() {
    let memo = Memo { storage: RefCell::new(PackratStorage::new(None)), bodies: Cell::new(0) };
    let old = Dialect { keyword: "begin", version: 1 };
    let input = Span::new_extra("begin\nend", old);
    let (rest, word) = keyword(&memo, input).unwrap();
    assert_eq!(word, "BEGIN");
    assert_eq!((rest.location_offset(), rest.location_line(), *rest.fragment()), (5, 1, "\nend"));
    assert_eq!(memo.bodies.get(), 1);
    let (again, word) = keyword(&memo, input).unwrap();
    assert_eq!(word, "BEGIN");
    assert_eq!((again.location_offset(), again.location_line(), *again.fragment()), (5, 1, "\nend"));
    assert_eq!(again.extra, old);
    assert_eq!(memo.bodies.get(), 1);
    let recorded = CacheKey::new("keyword", Position { buffer: 0, offset: 0 }, 1u8);
    assert_eq!(memo.storage.borrow().get(&recorded), Some(&Some(("BEGIN".to_string(), 5))));
}

#[test]
fn spans_with_another_context_are_cached_apart() {
    let memo = Memo { storage: RefCell::new(PackratStorage::new(None)), bodies: Cell::new(0) };
    let old = Dialect { keyword: "begin", version: 1 };
    let new = Dialect { keyword: "{", version: 2 };
    let text = "begin x";
    assert!(keyword(&memo, Span::new_extra(text, old)).is_ok());
    // The same rule at the same position fails under the other dialect, and
    // its failure does not replace the success of the first.
    let failed = keyword(&memo, Span::new_extra(text, new));
    assert_eq!(failed.unwrap_err(), nom::Err::Error(make_error(Span::new_extra(text, new), ErrorKind::Tag)));
    assert_eq!(memo.bodies.get(), 2);
    assert!(keyword(&memo, Span::new_extra(text, old)).is_ok());
    let replayed = keyword(&memo, Span::new_extra(text, new));
    assert_eq!(replayed.unwrap_err(), nom::Err::Error(make_error(Span::new_extra(text, new), ErrorKind::Fix)));
    assert_eq!(memo.bodies.get(), 2);
    let at = Position { buffer: 0, offset: 0 };
    let store = memo.storage.borrow();
    assert_eq!(store.get(&CacheKey::new("keyword", at, 1u8)), Some(&Some(("BEGIN".to_string(), 5))));
    assert_eq!(store.get(&CacheKey::new("keyword", at, 2u8)), Some(&None));
    assert_eq!(store.get(&CacheKey::new("keyword", at, 3u8)), None);
}
