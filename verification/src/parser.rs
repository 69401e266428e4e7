use vstd::prelude::*;

use crate::model::{RowModel, SummaryModel, id_of_href};
use crate::scrape;
use crate::scrape::Sel;

verus! {

/// One row of a user's workout history.
#[derive(Debug, Clone, PartialEq, Eq)]
pub struct WorkoutSummary {
    pub id: String,
    pub title: String,
    pub date: String,
    pub distance: String,
}

impl View for WorkoutSummary {
    type V = SummaryModel;

    open spec fn view(&self) -> SummaryModel {
        SummaryModel {
            id: self.id@,
            title: self.title@,
            date: self.date@,
            distance: self.distance@,
        }
    }
}

/// A workout row could not be turned into a record: the named field could not
/// be resolved. A row missing any field fails the whole parse call.
#[derive(Debug, Clone, Copy, PartialEq, Eq, Structural)]
pub enum ParseError {
    MissingTitle,
    MissingId,
    MissingDate,
    MissingDistance,
}

/// The record one row yields, or the first of its fields, in the order title,
/// id, date, distance, that cannot be resolved. Within each field the last
/// matching element wins.
pub open spec fn row_result(r: RowModel) -> Result<SummaryModel, ParseError> {
    if r.titles.len() == 0 {
        Err(ParseError::MissingTitle)
    } else if r.titles.last().href is None {
        Err(ParseError::MissingId)
    } else if r.dates.len() == 0 {
        Err(ParseError::MissingDate)
    } else if r.distances.len() == 0 || r.distances.last() is None {
        Err(ParseError::MissingDistance)
    } else {
        Ok(
            SummaryModel {
                id: id_of_href(r.titles.last().href.unwrap()),
                title: r.titles.last().text,
                date: r.dates.last(),
                distance: r.distances.last().unwrap(),
            },
        )
    }
}

/// The records a sequence of rows yields, in order, or the error of the first
/// row that yields one.
pub open spec fn rows_result(rows: Seq<RowModel>) -> Result<Seq<SummaryModel>, ParseError>
    decreases rows.len(),
{
    if rows.len() == 0 {
        Ok(Seq::<SummaryModel>::empty())
    } else {
        match row_result(rows.first()) {
            Err(e) => Err(e),
            Ok(s) => match rows_result(rows.drop_first()) {
                Err(e) => Err(e),
                Ok(rest) => Ok(seq![s] + rest),
            },
        }
    }
}

/// What parsing a page of markup yields: the records of its workout rows in
/// document order, or the error of the first row missing a field.
pub open spec fn parse_result(html: Seq<char>) -> Result<Seq<SummaryModel>, ParseError> {
    rows_result(scrape::rows_in(html))
}

proof fn lemma_rows_result_push(rows: Seq<RowModel>, r: RowModel)
    ensures
        rows_result(rows).is_ok() && row_result(r).is_ok() ==> rows_result(rows.push(r))
            == Ok::<Seq<SummaryModel>, ParseError>(
            rows_result(rows)->Ok_0.push(row_result(r)->Ok_0),
        ),
        rows_result(rows).is_ok() && row_result(r).is_err() ==> rows_result(rows.push(r))
            == Err::<Seq<SummaryModel>, ParseError>(row_result(r)->Err_0),
    decreases rows.len(),
{
    if rows.len() == 0 {
        assert(rows =~= Seq::<RowModel>::empty());
        assert(rows_result(rows) == Ok::<Seq<SummaryModel>, ParseError>(
            Seq::<SummaryModel>::empty(),
        ));
        assert(rows.push(r).first() == r);
        assert(rows.push(r).drop_first() =~= Seq::<RowModel>::empty());
        assert(rows_result(rows.push(r).drop_first()) == Ok::<Seq<SummaryModel>, ParseError>(
            Seq::<SummaryModel>::empty(),
        ));
        if row_result(r) is Ok {
            assert(rows_result(rows.push(r)) == Ok::<Seq<SummaryModel>, ParseError>(
                seq![row_result(r)->Ok_0] + Seq::<SummaryModel>::empty(),
            ));
            assert(seq![row_result(r)->Ok_0] + Seq::<SummaryModel>::empty() =~= Seq::<
                SummaryModel,
            >::empty().push(row_result(r)->Ok_0));
        }
    } else {
        lemma_rows_result_push(rows.drop_first(), r);
        assert(rows.push(r).first() == rows.first());
        assert(rows.push(r).drop_first() =~= rows.drop_first().push(r));
        if rows_result(rows) is Ok && row_result(r) is Ok {
            let s0 = row_result(rows.first())->Ok_0;
            let rest = rows_result(rows.drop_first())->Ok_0;
            assert(seq![s0] + rest.push(row_result(r)->Ok_0) =~= (seq![s0] + rest).push(
                row_result(r)->Ok_0,
            ));
        }
    }
}

/// Parsing preserves the rows: when every row resolves, the parse yields
/// exactly one record per row, in document order.
pub proof fn lemma_parse_keeps_every_row(rows: Seq<RowModel>)
    requires
        rows_result(rows) is Ok,
    ensures
        rows_result(rows)->Ok_0.len() == rows.len(),
        forall|i: int|
            0 <= i < rows.len() ==> row_result(rows[i]) is Ok && rows_result(rows)->Ok_0[i]
                == row_result(#[trigger] rows[i])->Ok_0,
    decreases rows.len(),
{
    if rows.len() > 0 {
        lemma_parse_keeps_every_row(rows.drop_first());
        assert forall|i: int| 0 <= i < rows.len() implies row_result(#[trigger] rows[i]) is Ok
            && rows_result(rows)->Ok_0[i] == row_result(rows[i])->Ok_0 by {
            if i > 0 {
                assert(rows.drop_first()[i - 1] == rows[i]);
            }
        }
    }
}

/// A row missing a field fails the whole parse call: when any row yields an
/// error, the rows as a whole yield an error, never a shortened list of
/// records.
pub proof fn lemma_bad_row_fails_parse(rows: Seq<RowModel>, i: int)
    requires
        0 <= i < rows.len(),
        row_result(rows[i]) is Err,
    ensures
        rows_result(rows) is Err,
    decreases rows.len(),
{
    if i == 0 {
    } else if row_result(rows.first()) is Ok {
        assert(rows.drop_first()[i - 1] == rows[i]);
        lemma_bad_row_fails_parse(rows.drop_first(), i - 1);
    }
}

/// Markup with no matching workout rows parses to the empty listing, never to
/// an error.
pub proof fn lemma_no_rows_yields_empty(html: Seq<char>)
    requires
        scrape::rows_in(html).len() == 0,
    ensures
        parse_result(html) == Ok::<Seq<SummaryModel>, ParseError>(Seq::<SummaryModel>::empty()),
{
}

proof fn lemma_rows_result_err(p: Seq<RowModel>, rest: Seq<RowModel>, e: ParseError)
    requires
        rows_result(p) is Ok,
        rest.len() > 0,
        row_result(rest.first()) == Err::<SummaryModel, ParseError>(e),
    ensures
        rows_result(p + rest) == Err::<Seq<SummaryModel>, ParseError>(e),
    decreases p.len(),
{
    if p.len() == 0 {
        assert(p + rest =~= rest);
    } else {
        assert((p + rest).first() == p.first());
        assert((p + rest).drop_first() =~= p.drop_first() + rest);
        lemma_rows_result_err(p.drop_first(), rest, e);
    }
}

/// One workout row: its fields, last match winning, or the first field that
/// cannot be resolved.
fn parse_workout_summary_row<'a>(
    row: &scraper::ElementRef<'a>,
    title_sel: &Sel,
    date_sel: &Sel,
    distance_sel: &Sel,
) -> (r: Result<WorkoutSummary, ParseError>)
    requires
        title_sel.css() == scrape::title_css(),
        date_sel.css() == scrape::date_css(),
        distance_sel.css() == scrape::distance_css(),
    ensures
        match r {
            Ok(w) => row_result(scrape::row_model(*row)) == Ok::<SummaryModel, ParseError>(w@),
            Err(e) => row_result(scrape::row_model(*row)) == Err::<SummaryModel, ParseError>(e),
        },
{
    let anchors = scrape::select_elem(row, title_sel);
    if anchors.len() == 0 {
        return Err(ParseError::MissingTitle);
    }
    let anchor = &anchors[anchors.len() - 1];
    proof {
        assert(scrape::row_titles(*row).last() == scrape::anchor_model(
            anchors@[anchors@.len() - 1],
        ));
    }
    let title = scrape::inner_html(anchor);
    let href = match scrape::href_attr(anchor) {
        Some(h) => h,
        None => {
            return Err(ParseError::MissingId);
        },
    };
    let id = id_from_href(href.as_str());
    let dates = scrape::select_elem(row, date_sel);
    if dates.len() == 0 {
        return Err(ParseError::MissingDate);
    }
    proof {
        assert(scrape::row_dates(*row).last() == scrape::inner_html_of(
            dates@[dates@.len() - 1],
        ));
    }
    let date = scrape::inner_html(&dates[dates.len() - 1]);
    let distances = scrape::select_elem(row, distance_sel);
    if distances.len() == 0 {
        return Err(ParseError::MissingDistance);
    }
    proof {
        assert(scrape::row_distances(*row).last() == scrape::first_text_of(
            distances@[distances@.len() - 1],
        ));
    }
    let distance = match scrape::first_text(&distances[distances.len() - 1]) {
        Some(d) => d,
        None => {
            return Err(ParseError::MissingDistance);
        },
    };
    Ok(WorkoutSummary { id, title, date, distance })
}

/// The workout id carried by a hyperlink reference: the text after its final
/// `/`, or the whole reference when it holds no `/`.
pub fn id_from_href(href: &str) -> (id: String)
    ensures
        id@ == id_of_href(href@),
{
    let n: usize = href.unicode_len();
    let mut start: usize = 0;
    let mut i: usize = 0;
    while i < n
        invariant
            n == href@.len(),
            start <= i <= n,
            id_of_href(href@.take(i as int)) == href@.subrange(start as int, i as int),
        decreases n - i,
    {
        let c = href.get_char(i);
        proof {
            assert(href@.take(i + 1).drop_last() =~= href@.take(i as int));
            assert(href@.take(i + 1).last() == href@[i as int]);
        }
        if c == '/' {
            start = i + 1;
            proof {
                assert(id_of_href(href@.take(i + 1)) =~= href@.subrange(start as int, i + 1));
            }
        } else {
            proof {
                assert(id_of_href(href@.take(i + 1)) =~= href@.subrange(start as int, i + 1));
            }
        }
        i = i + 1;
    }
    proof {
        assert(href@.take(n as int) =~= href@);
    }
    href.substring_char(start, n).to_owned()
}

/// The workout summary records the given markup holds, in document order:
/// container order, then row order within each container. A row missing a
/// field fails the whole call with that row's error; markup with no matching
/// rows yields an empty vector.
pub fn parse_workout_summaries(raw_html: String) -> (r: Result<Vec<WorkoutSummary>, ParseError>)
    ensures
        match r {
            Ok(ws) => parse_result(raw_html@) == Ok::<Seq<SummaryModel>, ParseError>(
                ws@.map_values(|w: WorkoutSummary| w@),
            ),
            Err(e) => parse_result(raw_html@) == Err::<Seq<SummaryModel>, ParseError>(e),
        },
{
    let doc = scrape::parse_document(raw_html.as_str());
    let table_sel = scrape::parse_selector(".workout-table");
    let row_sel = scrape::parse_selector(".workoutRows");
    let title_sel = scrape::parse_selector(".title a");
    let date_sel = scrape::parse_selector(".six");
    let distance_sel = scrape::parse_selector(".three");
    let tables = scrape::select_doc(&doc, &table_sel);
    let ghost tmods: Seq<Seq<RowModel>> = tables@.map_values(|t| scrape::table_rows(t));
    proof {
        assert(tmods.flatten() == scrape::rows_in(raw_html@));
    }
    let mut out: Vec<WorkoutSummary> = Vec::new();
    proof {
        assert(tmods.take(0).flatten() =~= Seq::<RowModel>::empty());
        assert(rows_result(tmods.take(0).flatten()) == Ok::<Seq<SummaryModel>, ParseError>(
            Seq::<SummaryModel>::empty(),
        ));
        assert(out@.map_values(|w: WorkoutSummary| w@) =~= Seq::<SummaryModel>::empty());
    }
    let mut ti: usize = 0;
    while ti < tables.len()
        invariant
            ti <= tables@.len(),
            tmods == tables@.map_values(|t| scrape::table_rows(t)),
            tmods.flatten() == scrape::rows_in(raw_html@),
            rows_result(tmods.take(ti as int).flatten()) == Ok::<Seq<SummaryModel>, ParseError>(
                out@.map_values(|w: WorkoutSummary| w@),
            ),
            row_sel.css() == scrape::row_css(),
            title_sel.css() == scrape::title_css(),
            date_sel.css() == scrape::date_css(),
            distance_sel.css() == scrape::distance_css(),
        decreases tables@.len() - ti,
    {
        let rows = scrape::select_elem(&tables[ti], &row_sel);
        let ghost rmods: Seq<RowModel> = tmods[ti as int];
        proof {
            assert(rows@.map_values(|r| scrape::row_model(r)) == scrape::table_rows(
                tables@[ti as int],
            ));
            assert(scrape::table_rows(tables@[ti as int]) == rmods);
            assert(tmods.take(ti as int).flatten() + rmods.take(0) =~= tmods.take(
                ti as int,
            ).flatten());
        }
        let mut ri: usize = 0;
        while ri < rows.len()
            invariant
                ri <= rows@.len(),
                rmods == rows@.map_values(|r| scrape::row_model(r)),
                rmods == tmods[ti as int],
                0 <= ti < tmods.len(),
                tmods == tables@.map_values(|t| scrape::table_rows(t)),
                tmods.flatten() == scrape::rows_in(raw_html@),
                rows_result(tmods.take(ti as int).flatten() + rmods.take(ri as int)) == Ok::<
                    Seq<SummaryModel>,
                    ParseError,
                >(out@.map_values(|w: WorkoutSummary| w@)),
                row_sel.css() == scrape::row_css(),
                title_sel.css() == scrape::title_css(),
                date_sel.css() == scrape::date_css(),
                distance_sel.css() == scrape::distance_css(),
            decreases rows@.len() - ri,
        {
            let ghost done: Seq<RowModel> = tmods.take(ti as int).flatten() + rmods.take(
                ri as int,
            );
            proof {
                assert(scrape::row_model(rows@[ri as int]) == rmods[ri as int]);
            }
            match parse_workout_summary_row(&rows[ri], &title_sel, &date_sel, &distance_sel) {
                Ok(w) => {
                    proof {
                        lemma_rows_result_push(done, rmods[ri as int]);
                        assert(done.push(rmods[ri as int]) =~= tmods.take(ti as int).flatten()
                            + rmods.take(ri + 1));
                        assert(out@.push(w).map_values(|x: WorkoutSummary| x@) =~= out@.map_values(
                            |x: WorkoutSummary| x@,
                        ).push(w@));
                    }
                    out.push(w);
                },
                Err(e) => {
                    proof {
                        lemma_full_decomposition(tmods, ti as int, ri as int);
                        let rest = rmods.skip(ri as int) + tmods.skip(ti + 1).flatten();
                        assert(rest.first() == rmods[ri as int]);
                        lemma_rows_result_err(done, rest, e);
                    }
                    return Err(e);
                },
            }
            ri = ri + 1;
        }
        proof {
            assert(rmods.take(rmods.len() as int) =~= rmods);
            assert(tmods.take(ti + 1) =~= tmods.take(ti as int).push(tmods[ti as int]));
            vstd::seq_lib::lemma_flatten_concat(
                tmods.take(ti as int),
                seq![tmods[ti as int]],
            );
            assert(tmods.take(ti as int) + seq![tmods[ti as int]] =~= tmods.take(ti + 1));
            seq![tmods[ti as int]].lemma_flatten_one_element();
        }
        ti = ti + 1;
    }
    proof {
        assert(tmods.take(tmods.len() as int) =~= tmods);
    }
    Ok(out)
}

proof fn lemma_full_decomposition(tmods: Seq<Seq<RowModel>>, ti: int, ri: int)
    requires
        0 <= ti < tmods.len(),
        0 <= ri < tmods[ti].len(),
    ensures
        tmods.flatten() == (tmods.take(ti).flatten() + tmods[ti].take(ri)) + (tmods[ti].skip(ri)
            + tmods.skip(ti + 1).flatten()),
{
    vstd::seq_lib::lemma_flatten_concat(tmods.take(ti + 1), tmods.skip(ti + 1));
    assert(tmods.take(ti + 1) + tmods.skip(ti + 1) =~= tmods);
    vstd::seq_lib::lemma_flatten_concat(tmods.take(ti), seq![tmods[ti]]);
    assert(tmods.take(ti) + seq![tmods[ti]] =~= tmods.take(ti + 1));
    seq![tmods[ti]].lemma_flatten_one_element();
    assert(tmods[ti].take(ri) + tmods[ti].skip(ri) =~= tmods[ti]);
    assert(tmods.flatten() == tmods.take(ti).flatten() + tmods[ti] + tmods.skip(ti + 1).flatten());
    assert((tmods.take(ti).flatten() + tmods[ti].take(ri)) + (tmods[ti].skip(ri) + tmods.skip(
        ti + 1,
    ).flatten()) =~= tmods.take(ti).flatten() + tmods[ti] + tmods.skip(ti + 1).flatten());
}

} // verus!
