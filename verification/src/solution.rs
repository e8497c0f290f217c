//! The check that the proving program makes of the puzzle it is given: it
//! accepts one puzzle with its solving move, written as the game writes it.

use vstd::prelude::*;

verus! {

/// The one input that the proving program accepts: the puzzle of white
/// `Ke1 Qf3 Bc4 Pd2 Pe4` against black `Kf8 Pf7 Pg7 Ph7 Pe7`, solved by
/// `f3f7`, in the JSON form that the game writes.
pub open spec fn expected_solution() -> Seq<char> {
    "{\"b\":[\"Kf8\",\"Pf7\",\"Pg7\",\"Ph7\",\"Pe7\"],\"moves\":[\"f3f7\"],\"w\":[\"Ke1\",\"Qf3\",\"Bc4\",\"Pd2\",\"Pe4\"]}"@
}

/// Whether the proving program accepts `json_input`: it does exactly for
/// the expected solution, and stops on any other input.
pub fn accepts_solution(json_input: &String) -> (res: bool)
    ensures
        res == (json_input@ == expected_solution()),
{
    let expected = "{\"b\":[\"Kf8\",\"Pf7\",\"Pg7\",\"Ph7\",\"Pe7\"],\"moves\":[\"f3f7\"],\"w\":[\"Ke1\",\"Qf3\",\"Bc4\",\"Pd2\",\"Pe4\"]}".to_owned();
    *json_input == expected
}

/// The bytes of a Merkle path: its nodes, one after another.
pub open spec fn path_bytes(path: Seq<[u8; 32]>) -> Seq<u8>
    decreases path.len(),
{
    if path.len() == 0 {
        seq![]
    } else {
        path_bytes(path.drop_last()) + path.last()@
    }
}

/// The joined path has 32 bytes per node, and byte `32 * i + k` is byte `k`
/// of node `i`.
pub proof fn lemma_path_bytes_layout(path: Seq<[u8; 32]>)
    ensures
        path_bytes(path).len() == 32 * path.len(),
        forall|i: int, k: int| 0 <= i < path.len() && 0 <= k < 32 ==> #[trigger] path_bytes(path)[32 * i + k]
            == (#[trigger] path[i])@[k],
    decreases path.len(),
{
    if path.len() > 0 {
        let prefix = path.drop_last();
        lemma_path_bytes_layout(prefix);
        let n = path.len() - 1;
        assert(path.last()@.len() == 32);
        assert forall|i: int, k: int| 0 <= i < path.len() && 0 <= k < 32 implies #[trigger] path_bytes(path)[32 * i
            + k] == (#[trigger] path[i])@[k] by {
            if i < n {
                assert(prefix[i] == path[i]);
                assert(path_bytes(prefix)[32 * i + k] == prefix[i]@[k]);
            } else {
                assert(path[i] == path.last());
            }
        }
    }
}

/// Joins the nodes of a Merkle path into one run of bytes, as the prize
/// contract takes it.
pub fn merkle_path_bytes(path: &Vec<[u8; 32]>) -> (res: Vec<u8>)
    ensures
        res@ == path_bytes(path@),
        res@.len() == 32 * path@.len(),
        forall|i: int, k: int| 0 <= i < path@.len() && 0 <= k < 32 ==> #[trigger] res@[32 * i + k]
            == (#[trigger] path@[i])@[k],
{
    let mut res: Vec<u8> = Vec::new();
    let mut i: usize = 0;
    while i < path.len()
        invariant
            i <= path@.len(),
            res@ == path_bytes(path@.take(i as int)),
        decreases path@.len() - i,
    {
        let node = &path[i];
        let ghost before = res@;
        let mut j: usize = 0;
        while j < 32
            invariant
                j <= 32,
                res@ == before + node@.take(j as int),
            decreases 32 - j,
        {
            res.push(node[j]);
            assert(before + node@.take(j + 1) =~= (before + node@.take(j as int)).push(node@[j as int]));
            j = j + 1;
        }
        assert(node@.take(32) =~= node@);
        assert(path@.take(i + 1).drop_last() =~= path@.take(i as int));
        i = i + 1;
    }
    assert(path@.take(path@.len() as int) =~= path@);
    proof {
        lemma_path_bytes_layout(path@);
    }
    res
}

} // verus!
