use vstd::prelude::*;

verus! {

/// Relies on `std::time::SystemTime::elapsed`, taken from the Unix epoch: the
/// whole seconds since 1970 by the system clock. A clock set before 1970 reads
/// as 0. Nothing is promised of the value: it is the time.
#[verifier::external_body]
pub fn get_now() -> u64 {
    std::time::UNIX_EPOCH.elapsed().map_or(0, |d| d.as_secs())
}

/// The client order id that follows `last_issued`, given the clock reading
/// `now` in whole seconds: the time itself when it has moved past the last
/// id, else the last id plus one. Ids so issued only grow.
pub fn next_order_id(last_issued: u64, now: u64) -> (r: u64)
    requires
        last_issued < u64::MAX,
    ensures
        r == if now > last_issued {
            now
        } else {
            (last_issued + 1) as u64
        },
        r > last_issued,
{
    if now > last_issued {
        now
    } else {
        last_issued + 1
    }
}

/// A client order id made from the current time in whole seconds since 1970,
/// above `last_issued`, so that no id repeats within a run.
pub fn generate_order_id(last_issued: u64) -> (r: u64)
    requires
        last_issued < u64::MAX,
    ensures
        r > last_issued,
{
    next_order_id(last_issued, get_now())
}

/// Relies on `chrono::Utc::now`, shifted by `add_hours` and written with
/// chrono's `format` as `YYYYMMDD-HH:MM:SS.nnnnnnnnn`: the sending time of a
/// message. chrono panics on a shift out of its range, hence the bound, and
/// `Utc::now` panics on a system clock set before 1970, a state of the
/// machine that no bound can exclude. Nothing is promised of the text, which
/// depends on the clock.
#[verifier::external_body]
pub fn generate_ts(add_hours: i64) -> String
    requires
        -1_000_000 <= add_hours <= 1_000_000,
{
    (chrono::Utc::now() + chrono::TimeDelta::hours(add_hours)).format("%Y%m%d-%H:%M:%S%.9f").to_string()
}

/// Ids issued one after another, each from the one before, strictly increase,
/// so no two of them are equal.
pub proof fn lemma_order_ids_distinct(ids: Seq<u64>)
    requires
        forall|i: int| 0 < i < ids.len() ==> #[trigger] ids[i] > ids[i - 1],
    ensures
        forall|i: int, j: int| 0 <= i < j < ids.len() ==> ids[i] < ids[j],
    decreases ids.len(),
{
    if ids.len() > 0 {
        let init = ids.drop_last();
        assert forall|i: int| 0 < i < init.len() implies #[trigger] init[i] > init[i - 1] by {
            assert(ids[i] > ids[i - 1]);
        }
        lemma_order_ids_distinct(init);
        assert forall|i: int, j: int| 0 <= i < j < ids.len() implies ids[i] < ids[j] by {
            if j == ids.len() - 1 {
                assert(ids[j] > ids[j - 1]);
                if i < j - 1 {
                    assert(init[i] < init[j - 1]);
                }
            } else {
                assert(init[i] < init[j]);
            }
        }
    }
}

} // verus!
