//! Count tables and the ranked, paginated view of one.
use vstd::prelude::*;

verus! {

/// One row of a count table: a participant and their count.
pub type Row = (u64, u64);

/// Whether no participant appears twice in `s`.
pub open spec fn ids_unique(s: Seq<Row>) -> bool {
    forall|i: int, j: int| 0 <= i < s.len() && 0 <= j < s.len() && i != j ==> #[trigger] s[i].0 != #[trigger] s[j].0
}

/// The first position of participant `id` in `s`, if any.
pub open spec fn position_of(s: Seq<Row>, id: u64) -> Option<nat>
    decreases s.len(),
{
    if s.len() == 0 {
        None
    } else if s[0].0 == id {
        Some(0)
    } else {
        match position_of(s.drop_first(), id) {
            Some(k) => Some(k + 1),
            None => None,
        }
    }
}

/// The count of `id` in `s`; a participant that is absent counts zero.
pub open spec fn count_in(s: Seq<Row>, id: u64) -> u64 {
    match position_of(s, id) {
        Some(k) => s[k as int].1,
        None => 0,
    }
}

/// `s` with the count of `id` set to `count`: in place when present, appended when not.
pub open spec fn with_count(s: Seq<Row>, id: u64, count: u64) -> Seq<Row> {
    match position_of(s, id) {
        Some(k) => s.update(k as int, (id, count)),
        None => s.push((id, count)),
    }
}

proof fn lemma_position_of(s: Seq<Row>, id: u64)
    ensures
        match position_of(s, id) {
            Some(k) => k < s.len() && s[k as int].0 == id && forall|j: int| 0 <= j < k ==> #[trigger] s[j].0 != id,
            None => forall|j: int| 0 <= j < s.len() ==> #[trigger] s[j].0 != id,
        },
    decreases s.len(),
{
    if s.len() > 0 {
        lemma_position_of(s.drop_first(), id);
        if s[0].0 != id {
            match position_of(s.drop_first(), id) {
                Some(k) => {
                    assert forall|j: int| 0 <= j < k + 1 implies #[trigger] s[j].0 != id by {
                        if j > 0 {
                            assert(s[j] == s.drop_first()[j - 1]);
                        }
                    }
                },
                None => {
                    assert forall|j: int| 0 <= j < s.len() implies #[trigger] s[j].0 != id by {
                        if j > 0 {
                            assert(s[j] == s.drop_first()[j - 1]);
                        }
                    }
                },
            }
        }
    }
}

/// A table of per-participant counts, in the order participants first appeared.
pub struct CountTable {
    rows: Vec<Row>,
}

impl View for CountTable {
    type V = Seq<Row>;

    closed spec fn view(&self) -> Seq<Row> {
        self.rows@
    }
}

/// Finds the position of `id` in `rows`.
fn find_row(rows: &Vec<Row>, id: u64) -> (r: Option<usize>)
    ensures
        match position_of(rows@, id) {
            Some(k) => r is Some && r->0 == k && k < rows@.len(),
            None => r is None,
        },
{
    proof {
        lemma_position_of(rows@, id);
    }
    let mut i: usize = 0;
    while i < rows.len()
        invariant
            i <= rows@.len(),
            forall|j: int| 0 <= j < i ==> #[trigger] rows@[j].0 != id,
            match position_of(rows@, id) {
                Some(k) => k < rows@.len() && rows@[k as int].0 == id && forall|j: int| 0 <= j < k ==> #[trigger] rows@[j].0 != id,
                None => forall|j: int| 0 <= j < rows@.len() ==> #[trigger] rows@[j].0 != id,
            },
        decreases rows.len() - i,
    {
        if rows[i].0 == id {
            return Some(i);
        }
        i = i + 1;
    }
    None
}

impl CountTable {
    /// Whether no participant appears twice.
    pub open spec fn wf(&self) -> bool {
        ids_unique(self@)
    }

    /// An empty table.
    pub fn new() -> (r: CountTable)
        ensures
            r@ == Seq::<Row>::empty(),
            r.wf(),
    {
        CountTable { rows: Vec::new() }
    }

    /// The number of participants in the table.
    pub fn len(&self) -> (r: usize)
        ensures
            r == self@.len(),
    {
        self.rows.len()
    }

    /// The rows, in table order.
    pub fn rows(&self) -> (r: &Vec<Row>)
        ensures
            r@ == self@,
    {
        &self.rows
    }

    /// The count of `id`, zero when absent.
    pub fn count_of(&self, id: u64) -> (r: u64)
        ensures
            r == count_in(self@, id),
    {
        let found = find_row(&self.rows, id);
        assert(self@ == self.rows@);
        match found {
            Some(k) => {
                self.rows[k].1
            },
            None => 0,
        }
    }

    /// Sets the count of `id`, keeping its place if it is present and appending it if not.
    pub fn set_count(&mut self, id: u64, count: u64)
        requires
            old(self).wf(),
        ensures
            final(self)@ == with_count(old(self)@, id, count),
            final(self).wf(),
    {
        proof {
            lemma_position_of(self@, id);
        }
        match find_row(&self.rows, id) {
            Some(k) => {
                self.rows.set(k, (id, count));
            },
            None => {
                self.rows.push((id, count));
            },
        }
    }
}

/// The position at which a row with count `c` goes among `s`: after every row whose
/// count is at least `c`, so that equal counts keep their earlier order.
pub open spec fn insert_pos(s: Seq<Row>, c: u64) -> nat
    decreases s.len(),
{
    if s.len() == 0 {
        0
    } else if s[0].1 < c {
        0
    } else {
        insert_pos(s.drop_first(), c) + 1
    }
}

/// The rows of `s` sorted by count, highest first, equal counts in table order.
pub open spec fn ranked(s: Seq<Row>) -> Seq<Row>
    decreases s.len(),
{
    if s.len() == 0 {
        s
    } else {
        let r = ranked(s.drop_last());
        r.insert(insert_pos(r, s.last().1) as int, s.last())
    }
}

proof fn lemma_insert_pos(s: Seq<Row>, c: u64, k: int)
    requires
        0 <= k <= s.len(),
        forall|j: int| 0 <= j < k ==> #[trigger] s[j].1 >= c,
        k == s.len() || s[k].1 < c,
    ensures
        insert_pos(s, c) == k,
    decreases s.len(),
{
    if s.len() > 0 && k > 0 {
        assert forall|j: int| 0 <= j < k - 1 implies #[trigger] s.drop_first()[j].1 >= c by {
            assert(s.drop_first()[j] == s[j + 1]);
        }
        lemma_insert_pos(s.drop_first(), c, k - 1);
    }
}

/// One line of a leaderboard: a 1-based place, a participant and their count.
#[derive(Clone, Copy, Debug, PartialEq, Eq, Structural)]
pub struct Placed {
    pub place: usize,
    pub id: u64,
    pub count: u64,
}

/// A page of a leaderboard, with the asker's own place over the whole board.
pub struct Leaderboard {
    /// The lines of the requested page, best first.
    pub page: Vec<Placed>,
    /// The asker's 1-based place and count, when they are on the board.
    pub asker: Option<(usize, u64)>,
    /// How many participants the board holds.
    pub total_entries: usize,
    /// `total_entries / page_size + 1`.
    pub total_pages: u128,
}

/// The lines of page `page_index` of the sorted rows `r`, `page_size` lines to a page.
pub open spec fn page_of(r: Seq<Row>, page_index: nat, page_size: nat) -> Seq<Placed> {
    let skip = page_index * page_size;
    let n = if skip >= r.len() {
        0
    } else if r.len() - skip < page_size {
        (r.len() - skip) as nat
    } else {
        page_size
    };
    Seq::new(n, |j: int| Placed { place: (skip + j + 1) as usize, id: r[skip + j].0, count: r[skip + j].1 })
}

/// The 1-based place and count of `id` among the sorted rows `r`.
pub open spec fn place_of(r: Seq<Row>, id: u64) -> Option<(usize, u64)> {
    match position_of(r, id) {
        Some(k) => Some(((k + 1) as usize, r[k as int].1)),
        None => None,
    }
}

impl Leaderboard {
    /// Whether this is page `page_index` of the board of `table`, as seen by `asker`.
    pub open spec fn describes(&self, table: Seq<Row>, asker: u64, page_index: nat, page_size: nat) -> bool {
        &&& self.page@ == page_of(ranked(table), page_index, page_size)
        &&& self.asker == place_of(ranked(table), asker)
        &&& self.total_entries == table.len()
        &&& self.total_pages == table.len() / page_size + 1
    }
}

/// Sorts the rows of `s` by count, highest first, equal counts in their order in `s`.
pub fn rank_rows(s: &Vec<Row>) -> (r: Vec<Row>)
    ensures
        r@ == ranked(s@),
{
    let mut out: Vec<Row> = Vec::new();
    let mut i: usize = 0;
    while i < s.len()
        invariant
            i <= s@.len(),
            out@ == ranked(s@.take(i as int)),
        decreases s.len() - i,
    {
        let row = s[i];
        let mut k: usize = 0;
        while k < out.len() && out[k].1 >= row.1
            invariant
                k <= out@.len(),
                forall|j: int| 0 <= j < k ==> #[trigger] out@[j].1 >= row.1,
            decreases out.len() - k,
        {
            k = k + 1;
        }
        proof {
            lemma_insert_pos(out@, row.1, k as int);
            let t = s@.take(i as int + 1);
            assert(t.drop_last() =~= s@.take(i as int));
            assert(t.last() == row);
        }
        out.insert(k, row);
        i = i + 1;
    }
    assert(s@.take(s@.len() as int) =~= s@);
    out
}

/// Page `page_index` of the board of `table`, `page_size` lines to a page, and the
/// place of `asker` over the whole board.
pub fn leaderboard(table: &CountTable, asker: u64, page_index: usize, page_size: usize) -> (r: Leaderboard)
    requires
        page_size > 0,
    ensures
        r.describes(table@, asker, page_index as nat, page_size as nat),
{
    let sorted = rank_rows(table.rows());
    let n = sorted.len();
    let ghost skip_spec = page_index as nat * page_size as nat;
    let mut page: Vec<Placed> = Vec::new();
    let fits = page_index <= n / page_size;
    if fits {
        proof {
            assert(page_index as nat * page_size as nat <= (n / page_size) as nat * page_size as nat) by (nonlinear_arith)
                requires page_index <= n / page_size;
            assert((n / page_size) as nat * page_size as nat <= n as nat) by (nonlinear_arith)
                requires page_size > 0;
        }
        let skip = page_index * page_size;
        let end = if n - skip < page_size { n } else { skip + page_size };
        let mut k: usize = skip;
        while k < end
            invariant
                skip as nat == page_index as nat * page_size as nat,
                skip <= k <= end <= n,
                n == sorted@.len(),
                end - skip == page_of(sorted@, page_index as nat, page_size as nat).len(),
                page@ =~= page_of(sorted@, page_index as nat, page_size as nat).take(k - skip),
            decreases end - k,
        {
            let ghost before = page@;
            let ghost want = page_of(sorted@, page_index as nat, page_size as nat);
            page.push(Placed { place: k + 1, id: sorted[k].0, count: sorted[k].1 });
            assert(k - skip < want.len());
            assert(want[k - skip].id == sorted@[k as int].0);
            assert(want[k - skip].place == (k + 1) as usize);
            assert(want[k - skip] == Placed { place: (k + 1) as usize, id: sorted@[k as int].0, count: sorted@[k as int].1 });
            assert(want.take(k + 1 - skip) =~= before.push(want[k - skip]));
            k = k + 1;
        }
        assert(page@ =~= page_of(sorted@, page_index as nat, page_size as nat));
    } else {
        proof {
            assert(page_index as nat * page_size as nat >= n as nat) by (nonlinear_arith)
                requires page_index > n / page_size, page_size > 0;
        }
        assert(page@ =~= page_of(sorted@, page_index as nat, page_size as nat));
    }
    let asker_place = match find_row(&sorted, asker) {
        Some(k) => Some((k + 1, sorted[k].1)),
        None => None,
    };
    Leaderboard {
        page,
        asker: asker_place,
        total_entries: table.len(),
        total_pages: (table.len() / page_size) as u128 + 1,
    }
}

/// Ranking keeps every row: the board is as long as the table.
pub proof fn ranked_len(s: Seq<Row>)
    ensures
        ranked(s).len() == s.len(),
    decreases s.len(),
{
    if s.len() > 0 {
        ranked_len(s.drop_last());
        lemma_insert_pos_bound(ranked(s.drop_last()), s.last().1);
    }
}

proof fn lemma_insert_pos_bound(s: Seq<Row>, c: u64)
    ensures
        insert_pos(s, c) <= s.len(),
    decreases s.len(),
{
    if s.len() > 0 {
        lemma_insert_pos_bound(s.drop_first(), c);
    }
}

/// Two boards of one table seen by one asker agree on the asker's place and on the
/// totals whatever pages they show, and are the same page when the pages asked for are.
pub proof fn board_is_deterministic(
    table: Seq<Row>,
    asker: u64,
    page_size: nat,
    p1: nat,
    p2: nat,
    a: Leaderboard,
    b: Leaderboard,
)
    requires
        a.describes(table, asker, p1, page_size),
        b.describes(table, asker, p2, page_size),
    ensures
        a.asker == b.asker,
        a.total_entries == b.total_entries,
        a.total_pages == b.total_pages,
        p1 == p2 ==> a.page@ == b.page@,
{
}

/// The board of an empty table has an empty first page and no place for the asker.
pub proof fn empty_board(table: Seq<Row>, asker: u64, page_size: nat, lb: Leaderboard)
    requires
        table.len() == 0,
        page_size > 0,
        lb.describes(table, asker, 0, page_size),
    ensures
        lb.page@.len() == 0,
        lb.asker is None,
        lb.total_entries == 0,
        lb.total_pages == 1,
{
    ranked_len(table);
}

/// When a table holds exactly one page of rows there are two pages, the second empty.
pub proof fn full_page_board(table: Seq<Row>, asker: u64, page_size: nat, lb: Leaderboard)
    requires
        table.len() == page_size,
        page_size > 0,
        lb.describes(table, asker, 1, page_size),
    ensures
        lb.total_pages == 2,
        lb.page@.len() == 0,
{
    ranked_len(table);
    assert(page_size / page_size == 1) by (nonlinear_arith)
        requires page_size > 0;
}

/// Whether the counts of `s` never rise from one row to a later one.
pub open spec fn sorted_desc(s: Seq<Row>) -> bool {
    forall|i: int, j: int| 0 <= i < j < s.len() ==> #[trigger] s[i].1 >= #[trigger] s[j].1
}

proof fn lemma_insert_pos_split(s: Seq<Row>, c: u64)
    ensures
        insert_pos(s, c) <= s.len(),
        forall|j: int| 0 <= j < insert_pos(s, c) ==> #[trigger] s[j].1 >= c,
        insert_pos(s, c) < s.len() ==> s[insert_pos(s, c) as int].1 < c,
    decreases s.len(),
{
    if s.len() > 0 && s[0].1 >= c {
        lemma_insert_pos_split(s.drop_first(), c);
        assert forall|j: int| 0 <= j < insert_pos(s, c) implies #[trigger] s[j].1 >= c by {
            if j > 0 {
                assert(s[j] == s.drop_first()[j - 1]);
            }
        }
    }
}

/// A board lists its rows from the highest count down.
pub proof fn ranked_is_sorted(s: Seq<Row>)
    ensures
        sorted_desc(ranked(s)),
    decreases s.len(),
{
    if s.len() > 0 {
        let r = ranked(s.drop_last());
        let e = s.last();
        ranked_is_sorted(s.drop_last());
        lemma_insert_pos_split(r, e.1);
        let k = insert_pos(r, e.1) as int;
        let t = r.insert(k, e);
        assert forall|i: int, j: int| 0 <= i < j < t.len() implies #[trigger] t[i].1 >= #[trigger] t[j].1 by {
            if j < k {
            } else if j == k {
            } else if i < k {
                assert(t[j] == r[j - 1]);
            } else if i == k {
                assert(t[j] == r[j - 1]);
                assert(r[k].1 >= r[j - 1].1);
            } else {
                assert(t[i] == r[i - 1]);
                assert(t[j] == r[j - 1]);
            }
        }
    }
}

/// A board holds exactly the rows of its table, each as often as the table does.
pub proof fn ranked_keeps_rows(s: Seq<Row>)
    ensures
        ranked(s).to_multiset() == s.to_multiset(),
    decreases s.len(),
{
    if s.len() > 0 {
        let r = ranked(s.drop_last());
        ranked_keeps_rows(s.drop_last());
        lemma_insert_pos_bound(r, s.last().1);
        vstd::seq_lib::to_multiset_insert(r, insert_pos(r, s.last().1) as int, s.last());
        vstd::seq_lib::to_multiset_build(s.drop_last(), s.last());
        assert(s.drop_last().push(s.last()) =~= s);
    }
}

} // verus!
