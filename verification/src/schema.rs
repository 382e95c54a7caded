//! The query-surface types: paging and filter parameters with their
//! defaulting rules, the connection shape results are wrapped in, and the
//! placeholder query and mutation roots.

use vstd::prelude::*;

verus! {

/// Paging state reported with a connection.
#[derive(Clone, Debug)]
pub struct PageInfo {
    pub start_cursor: Option<String>,
    pub end_cursor: Option<String>,
    pub has_next_page: bool,
}

/// The page size used when a query names none.
pub const DEFAULT_PAGE_SIZE: i32 = 20;

/// Caller-supplied paging: an optional limit and an optional decimal
/// cursor.
#[derive(Clone, Debug)]
pub struct PagingParams {
    pub limit: Option<i32>,
    pub cursor: Option<String>,
}

// ---------------------------------------------------------------------------
// Decimal cursors
// ---------------------------------------------------------------------------
/// A decimal digit.
pub open spec fn is_digit(c: char) -> bool {
    '0' <= c <= '9'
}

/// A nonempty, all-digit sequence.
pub open spec fn all_digits(s: Seq<char>) -> bool {
    s.len() > 0 && (forall|i: int| 0 <= i < s.len() ==> is_digit(#[trigger] s[i]))
}

/// The value of a digit sequence appended to an accumulator.
pub open spec fn digits_val_rec(acc: int, s: Seq<char>) -> int
    decreases s.len(),
{
    if s.len() == 0 {
        acc
    } else {
        digits_val_rec(acc * 10 + (s[0] as int - '0' as int), s.drop_first())
    }
}

/// The signed magnitude, when the digits are well formed and the value fits.
pub open spec fn spec_parse_signed(neg: bool, ds: Seq<char>) -> Option<i64> {
    if all_digits(ds) {
        let v = digits_val_rec(0, ds);
        if neg {
            if -v >= i64::MIN {
                Some((-v) as i64)
            } else {
                None
            }
        } else {
            if v <= i64::MAX {
                Some(v as i64)
            } else {
                None
            }
        }
    } else {
        None
    }
}

/// What a decimal string denotes: an optional sign, then digits; anything
/// else, and any value outside the 64-bit range, is rejected.
pub open spec fn spec_parse_i64(s: Seq<char>) -> Option<i64> {
    if s.len() > 0 && s[0] == '-' {
        spec_parse_signed(true, s.drop_first())
    } else if s.len() > 0 && s[0] == '+' {
        spec_parse_signed(false, s.drop_first())
    } else {
        spec_parse_signed(false, s)
    }
}

/// Appending digits never shrinks a nonnegative accumulator.
proof fn lemma_digits_val_lower(acc: int, s: Seq<char>)
    requires
        acc >= 0,
        forall|i: int| 0 <= i < s.len() ==> is_digit(#[trigger] s[i]),
    ensures
        digits_val_rec(acc, s) >= acc,
    decreases s.len(),
{
    if s.len() == 0 {
    } else {
        assert(is_digit(s[0]));
        let acc2 = acc * 10 + (s[0] as int - '0' as int);
        assert forall|i: int| 0 <= i < s.drop_first().len() implies is_digit(
            #[trigger] s.drop_first()[i],
        ) by {
            assert(s.drop_first()[i] == s[i + 1]);
        }
        lemma_digits_val_lower(acc2, s.drop_first());
    }
}

/// Parses the digit run `s[start..n]` with the given sign.
fn parse_digits(s: &str, start: usize, neg: bool) -> (r: Option<i64>)
    requires
        start <= s@.len(),
    ensures
        r == spec_parse_signed(neg, s@.subrange(start as int, s@.len() as int)),
{
    let n = s.unicode_len();
    let ghost ds = s@.subrange(start as int, s@.len() as int);
    if start == n {
        assert(!all_digits(ds));
        return None;
    }
    let bound: u64 = if neg {
        9223372036854775808
    } else {
        9223372036854775807
    };
    let mut acc: u64 = 0;
    let mut i: usize = start;
    proof {
        assert(ds.skip(0) =~= ds);
    }
    while i < n
        invariant
            start <= i <= n,
            n == s@.len(),
            ds == s@.subrange(start as int, s@.len() as int),
            acc <= bound,
            bound == (if neg {
                9223372036854775808u64
            } else {
                9223372036854775807u64
            }),
            forall|j: int| start <= j < i ==> is_digit(#[trigger] s@[j]),
            digits_val_rec(0, ds) == digits_val_rec(acc as int, ds.skip((i - start) as int)),
        decreases n - i,
    {
        let c = s.get_char(i);
        if !('0' <= c && c <= '9') {
            assert(!is_digit(ds[(i - start) as int]));
            assert(!all_digits(ds));
            return None;
        }
        let d: u64 = (c as u32 as u64) - ('0' as u32 as u64);
        proof {
            assert(ds.skip((i - start) as int)[0] == s@[i as int]);
            assert(ds.skip((i - start) as int).drop_first() =~= ds.skip((i - start) as int + 1));
            assert(d == s@[i as int] as int - '0' as int);
        }
        let wide: u128 = (acc as u128) * 10 + (d as u128);
        if wide > bound as u128 {
            proof {
                let j = (i - start) as int;
                let acc2 = acc as int * 10 + (s@[i as int] as int - '0' as int);
                assert(digits_val_rec(0, ds) == digits_val_rec(acc2, ds.skip(j + 1)));
                if all_digits(ds) {
                    assert forall|m: int| 0 <= m < ds.skip(j + 1).len() implies is_digit(
                        #[trigger] ds.skip(j + 1)[m],
                    ) by {
                        assert(ds.skip(j + 1)[m] == ds[m + j + 1]);
                    }
                    lemma_digits_val_lower(acc2, ds.skip(j + 1));
                    assert(digits_val_rec(0, ds) > bound as int);
                }
            }
            return None;
        }
        acc = wide as u64;
        i = i + 1;
    }
    proof {
        assert(ds.skip((n - start) as int) =~= Seq::<char>::empty());
        assert(digits_val_rec(0, ds) == acc as int);
        assert forall|j: int| 0 <= j < ds.len() implies is_digit(#[trigger] ds[j]) by {
            assert(ds[j] == s@[j + start]);
        }
        assert(all_digits(ds));
    }
    if neg {
        if acc == 9223372036854775808 {
            Some(i64::MIN)
        } else {
            Some(-(acc as i64))
        }
    } else {
        Some(acc as i64)
    }
}

/// Parses a decimal string as a 64-bit integer: an optional sign, then
/// digits, with range errors rejected.
pub fn parse_i64(s: &str) -> (r: Option<i64>)
    ensures
        r == spec_parse_i64(s@),
{
    let n = s.unicode_len();
    if n == 0 {
        proof {
            let ds = s@.subrange(0, 0);
            assert(!all_digits(ds));
        }
        return parse_digits(s, 0, false);
    }
    let c0 = s.get_char(0);
    if c0 == '-' {
        proof {
            assert(s@.subrange(1, s@.len() as int) =~= s@.drop_first());
        }
        parse_digits(s, 1, true)
    } else if c0 == '+' {
        proof {
            assert(s@.subrange(1, s@.len() as int) =~= s@.drop_first());
        }
        parse_digits(s, 1, false)
    } else {
        proof {
            assert(s@.subrange(0, s@.len() as int) =~= s@);
        }
        parse_digits(s, 0, false)
    }
}

impl PagingParams {
    /// The page size to use: the caller's, or the default.
    pub fn get_limit(&self) -> (r: i32)
        ensures
            r == match self.limit {
                None => DEFAULT_PAGE_SIZE as int,
                Some(l) => l as int,
            },
    {
        match self.limit {
            None => DEFAULT_PAGE_SIZE,
            Some(limit) => limit,
        }
    }

    /// The cursor position: the cursor string read as a decimal integer,
    /// with an absent, malformed or out-of-range cursor reading as zero.
    pub fn get_cursor(&self) -> (r: i64)
        ensures
            r == match self.cursor {
                None => 0int,
                Some(c) => match spec_parse_i64(c@) {
                    Some(v) => v as int,
                    None => 0int,
                },
            },
    {
        match &self.cursor {
            None => 0,
            Some(cursor) => match parse_i64(cursor.as_str()) {
                Some(v) => v,
                None => 0,
            },
        }
    }
}

impl Default for PagingParams {
    /// The default paging: the default page size, no cursor.
    fn default() -> (r: Self)
        ensures
            r.limit == Some(DEFAULT_PAGE_SIZE),
            r.cursor is None,
    {
        PagingParams { limit: Some(DEFAULT_PAGE_SIZE), cursor: None }
    }
}

/// Caller-supplied model filters.
#[derive(Clone, Debug)]
pub struct ModelsFilterParams {
    pub uuid: Option<String>,
    pub name: Option<String>,
}

impl Default for ModelsFilterParams {
    /// The default filter: everything.
    fn default() -> (r: Self)
        ensures
            r.uuid is None,
            r.name is None,
    {
        ModelsFilterParams { uuid: None, name: None }
    }
}

/// A placeholder status for the sample records the stub resolvers serve.
#[derive(Clone, Copy, Debug, PartialEq, Eq, Structural)]
pub enum Status {
    Active,
    InActive,
    Disabled,
}

/// The sample record type the stub resolvers serve.
#[derive(Clone, Debug)]
pub struct Human {
    pub id: String,
    pub name: String,
    pub appears_in: Vec<Status>,
    pub home_planet: String,
}

/// The input shape for creating a sample record.
#[derive(Clone, Debug)]
pub struct NewHuman {
    pub name: String,
    pub appears_in: Vec<Status>,
    pub home_planet: String,
}

/// One page of results.
#[derive(Clone, Debug)]
pub struct ModelConnection {
    pub edges: Vec<Human>,
    pub page_info: PageInfo,
    pub cursor: Option<String>,
}

/// The read side of the query surface.
#[derive(Clone, Copy, Debug, PartialEq, Eq, Structural)]
pub struct QueryRoot;

/// The write side of the query surface.
#[derive(Clone, Copy, Debug, PartialEq, Eq, Structural)]
pub struct MutationRoot;

impl QueryRoot {
    /// The stub `models` resolver: one fixed sample edge and no further
    /// page, whatever the filter and paging say.
    pub fn models(
        &self,
        filter: Option<ModelsFilterParams>,
        paging: Option<PagingParams>,
    ) -> (r: ModelConnection)
        ensures
            r.edges@.len() == 1,
            r.edges@[0].id@ == "1234"@,
            r.edges@[0].name@ == "Johnny Cash"@,
            r.edges@[0].home_planet@ == "Earth"@,
            !r.page_info.has_next_page,
            r.page_info.start_cursor is None,
            r.page_info.end_cursor is None,
            r.cursor is None,
    {
        let _ = filter;
        let _ = paging;
        let mut appears_in: Vec<Status> = Vec::new();
        appears_in.push(Status::Disabled);
        let mut edges: Vec<Human> = Vec::new();
        edges.push(
            Human {
                id: String::from_str("1234"),
                name: String::from_str("Johnny Cash"),
                appears_in,
                home_planet: String::from_str("Earth"),
            },
        );
        ModelConnection {
            edges,
            page_info: PageInfo { start_cursor: None, end_cursor: None, has_next_page: false },
            cursor: None,
        }
    }

    /// The stub `human` resolver: the fixed sample record, whatever the id.
    pub fn human(&self, id: String) -> (r: Human)
        ensures
            r.id@ == "1234"@,
            r.name@ == "Johnny Cash"@,
            r.home_planet@ == "Earth"@,
    {
        let _ = id;
        let mut appears_in: Vec<Status> = Vec::new();
        appears_in.push(Status::Disabled);
        Human {
            id: String::from_str("1234"),
            name: String::from_str("Johnny Cash"),
            appears_in,
            home_planet: String::from_str("Earth"),
        }
    }
}

impl MutationRoot {
    /// The stub creation resolver: echoes the input under the fixed sample
    /// id.
    pub fn create_human(&self, new_human: NewHuman) -> (r: Human)
        ensures
            r.id@ == "1234"@,
            r.name@ == new_human.name@,
            r.appears_in@ == new_human.appears_in@,
            r.home_planet@ == new_human.home_planet@,
    {
        Human {
            id: String::from_str("1234"),
            name: new_human.name,
            appears_in: new_human.appears_in,
            home_planet: new_human.home_planet,
        }
    }
}

/// The query surface: its read and write roots.
#[derive(Clone, Copy, Debug, PartialEq, Eq, Structural)]
pub struct Schema {
    pub query: QueryRoot,
    pub mutation: MutationRoot,
}

/// Builds the query surface.
pub fn create_schema() -> (r: Schema)
    ensures
        r == (Schema { query: QueryRoot, mutation: MutationRoot }),
{
    Schema { query: QueryRoot, mutation: MutationRoot }
}

} // verus!
