//! The catalog of RPC methods that are counted one by one.

use vstd::prelude::*;

use crate::text::same_text;

verus! {

/// The number of method slots reserved for RPC instrumentation.
pub const RPC_METHOD_SLOTS: usize = 54;

/// The method of each slot. The last slot stands for every method that is not in the
/// catalog.
pub const RPC_METHOD_LABELS: [&'static str; RPC_METHOD_SLOTS] = [
    "getBalance",
    "getEpochInfo",
    "getGenesisHash",
    "getHealth",
    "getIdentity",
    "getSlot",
    "getBlockHeight",
    "getHighestSnapshotSlot",
    "getTransactionCount",
    "getVersion",
    "getVoteAccounts",
    "getLeaderSchedule",
    "getMinimumBalanceForRentExemption",
    "getInflationGovernor",
    "getInflationRate",
    "getEpochSchedule",
    "getSlotLeader",
    "getSlotLeaders",
    "getBlockProduction",
    "getAccountInfo",
    "getMultipleAccounts",
    "getBlockCommitment",
    "getTokenAccountBalance",
    "getTokenSupply",
    "getProgramAccounts",
    "getLargestAccounts",
    "getSupply",
    "getTokenLargestAccounts",
    "getTokenAccountsByOwner",
    "getTokenAccountsByDelegate",
    "getInflationReward",
    "getClusterNodes",
    "getRecentPerformanceSamples",
    "getSignatureStatuses",
    "getMaxRetransmitSlot",
    "getMaxShredInsertSlot",
    "requestAirdrop",
    "sendTransaction",
    "simulateTransaction",
    "simulateBundle",
    "minimumLedgerSlot",
    "getBlock",
    "getBlockTime",
    "getBlocks",
    "getBlocksWithLimit",
    "getTransaction",
    "getSignaturesForAddress",
    "getFirstAvailableBlock",
    "getLatestBlockhash",
    "isBlockhashValid",
    "getFeeForMessage",
    "getStakeMinimumDelegation",
    "getRecentPrioritizationFees",
    "other",
];

/// Whether `slot` is the slot of `method`: the first one with that label, or the last one
/// if the method is not in the catalog.
pub open spec fn is_slot_of(slot: int, method: Seq<char>) -> bool {
    &&& 0 <= slot < RPC_METHOD_SLOTS
    &&& forall|earlier: int|
        0 <= earlier < slot ==> (#[trigger] RPC_METHOD_LABELS@[earlier])@ != method
    &&& slot < RPC_METHOD_SLOTS - 1 ==> RPC_METHOD_LABELS@[slot]@ == method
}

/// The slot in which `method` is counted.
pub fn rpc_method_slot(method: &str) -> (slot: usize)
    ensures
        is_slot_of(slot as int, method@),
{
    let mut slot: usize = 0;
    while slot < RPC_METHOD_SLOTS - 1
        invariant
            slot < RPC_METHOD_SLOTS,
            forall|earlier: int|
                0 <= earlier < slot ==> (#[trigger] RPC_METHOD_LABELS@[earlier])@ != method@,
        decreases RPC_METHOD_SLOTS - slot,
    {
        if same_text(RPC_METHOD_LABELS[slot], method) {
            return slot;
        }
        slot += 1;
    }
    slot
}

/// A number that tells the labels of the catalog apart.
spec fn mark(label: Seq<char>) -> int {
    let sixth_last = if label.len() >= 6 {
        label[label.len() - 6] as int
    } else {
        0
    };
    let tenth = if label.len() >= 10 {
        label[9] as int
    } else {
        0
    };
    (label.len() * 1000 + sixth_last) * 1000 + tenth
}

/// The slot of the label with the given mark.
spec fn slot_of_mark(mark: int) -> int {
    if mark == 10097101 {
        0
    } else if mark == 12099110 {
        1
    } else if mark == 14105115 {
        2
    } else if mark == 9072000 {
        3
    } else if mark == 11101116 {
        4
    } else if mark == 7101000 {
        5
    } else if mark == 14072101 {
        6
    } else if mark == 22111116 {
        7
    } else if mark == 19110099 {
        8
    } else if mark == 10101110 {
        9
    } else if mark == 15099099 {
        10
    } else if mark == 17104083 {
        11
    } else if mark == 33109109 {
        12
    } else if mark == 20118105 {
        13
    } else if mark == 16111105 {
        14
    } else if mark == 16104099 {
        15
    } else if mark == 13076097 {
        16
    } else if mark == 14101097 {
        17
    } else if mark == 18117114 {
        18
    } else if mark == 14110116 {
        19
    } else if mark == 19099108 {
        20
    } else if mark == 18105111 {
        21
    } else if mark == 22097099 {
        22
    } else if mark == 14083117 {
        23
    } else if mark == 18099109 {
        24
    } else if mark == 18099116 {
        25
    } else if mark == 9083000 {
        26
    } else if mark == 23099097 {
        27
    } else if mark == 23121099 {
        28
    } else if mark == 26108099 {
        29
    } else if mark == 18082105 {
        30
    } else if mark == 15114114 {
        31
    } else if mark == 27097080 {
        32
    } else if mark == 20097117 {
        33
    } else if mark == 20105114 {
        34
    } else if mark == 21114101 {
        35
    } else if mark == 14105114 {
        36
    } else if mark == 15097097 {
        37
    } else if mark == 19097114 {
        38
    } else if mark == 14066117 {
        39
    } else if mark == 17101100 {
        40
    } else if mark == 8116000 {
        41
    } else if mark == 12099105 {
        42
    } else if mark == 9066000 {
        43
    } else if mark == 18104087 {
        44
    } else if mark == 14097099 {
        45
    } else if mark == 23100117 {
        46
    } else if mark == 22101118 {
        47
    } else if mark == 18099066 {
        48
    } else if mark == 16104115 {
        49
    } else if mark == 16101077 {
        50
    } else if mark == 25103105 {
        51
    } else if mark == 27111080 {
        52
    } else if mark == 5000000 {
        53
    } else {
        -1
    }
}

/// Every label of the catalog has the slot of its mark.
proof fn lemma_marks()
    ensures
        forall|slot: int|
            0 <= slot < RPC_METHOD_SLOTS ==> slot_of_mark(
                mark((#[trigger] RPC_METHOD_LABELS@[slot])@),
            ) == slot,
{
    reveal_strlit("getBalance");
    reveal_strlit("getEpochInfo");
    reveal_strlit("getGenesisHash");
    reveal_strlit("getHealth");
    reveal_strlit("getIdentity");
    reveal_strlit("getSlot");
    reveal_strlit("getBlockHeight");
    reveal_strlit("getHighestSnapshotSlot");
    reveal_strlit("getTransactionCount");
    reveal_strlit("getVersion");
    reveal_strlit("getVoteAccounts");
    reveal_strlit("getLeaderSchedule");
    reveal_strlit("getMinimumBalanceForRentExemption");
    reveal_strlit("getInflationGovernor");
    reveal_strlit("getInflationRate");
    reveal_strlit("getEpochSchedule");
    reveal_strlit("getSlotLeader");
    reveal_strlit("getSlotLeaders");
    reveal_strlit("getBlockProduction");
    reveal_strlit("getAccountInfo");
    reveal_strlit("getMultipleAccounts");
    reveal_strlit("getBlockCommitment");
    reveal_strlit("getTokenAccountBalance");
    reveal_strlit("getTokenSupply");
    reveal_strlit("getProgramAccounts");
    reveal_strlit("getLargestAccounts");
    reveal_strlit("getSupply");
    reveal_strlit("getTokenLargestAccounts");
    reveal_strlit("getTokenAccountsByOwner");
    reveal_strlit("getTokenAccountsByDelegate");
    reveal_strlit("getInflationReward");
    reveal_strlit("getClusterNodes");
    reveal_strlit("getRecentPerformanceSamples");
    reveal_strlit("getSignatureStatuses");
    reveal_strlit("getMaxRetransmitSlot");
    reveal_strlit("getMaxShredInsertSlot");
    reveal_strlit("requestAirdrop");
    reveal_strlit("sendTransaction");
    reveal_strlit("simulateTransaction");
    reveal_strlit("simulateBundle");
    reveal_strlit("minimumLedgerSlot");
    reveal_strlit("getBlock");
    reveal_strlit("getBlockTime");
    reveal_strlit("getBlocks");
    reveal_strlit("getBlocksWithLimit");
    reveal_strlit("getTransaction");
    reveal_strlit("getSignaturesForAddress");
    reveal_strlit("getFirstAvailableBlock");
    reveal_strlit("getLatestBlockhash");
    reveal_strlit("isBlockhashValid");
    reveal_strlit("getFeeForMessage");
    reveal_strlit("getStakeMinimumDelegation");
    reveal_strlit("getRecentPrioritizationFees");
    reveal_strlit("other");
}

/// The catalog holds no label twice, so every method of the catalog is counted in the
/// slot that carries its label, and no other method is.
pub proof fn law_labels_are_distinct(slot: int, other: int)
    requires
        0 <= slot < RPC_METHOD_SLOTS,
        0 <= other < RPC_METHOD_SLOTS,
    ensures
        RPC_METHOD_LABELS@[slot]@ == RPC_METHOD_LABELS@[other]@ ==> slot == other,
        is_slot_of(slot, RPC_METHOD_LABELS@[other]@) <==> slot == other,
{
    lemma_marks();
    assert forall|earlier: int| 0 <= earlier < RPC_METHOD_SLOTS && earlier != other implies (
    #[trigger] RPC_METHOD_LABELS@[earlier])@ != RPC_METHOD_LABELS@[other]@ by {
        assert(slot_of_mark(mark(RPC_METHOD_LABELS@[earlier]@)) == earlier);
        assert(slot_of_mark(mark(RPC_METHOD_LABELS@[other]@)) == other);
    }
}

/// Every method has exactly one slot, within the catalog: the number of series does not
/// grow with what callers send.
pub proof fn law_every_method_has_one_slot(method: Seq<char>)
    ensures
        exists|slot: int| is_slot_of(slot, method),
        forall|a: int, b: int|
            #![trigger is_slot_of(a, method), is_slot_of(b, method)]
            is_slot_of(a, method) && is_slot_of(b, method) ==> a == b,
{
    lemma_first_slot(method, 0);
    assert forall|a: int, b: int|
        #![trigger is_slot_of(a, method), is_slot_of(b, method)]
        is_slot_of(a, method) && is_slot_of(b, method) implies a == b by {
        if a < b {
            assert(RPC_METHOD_LABELS@[a]@ != method);
        } else if b < a {
            assert(RPC_METHOD_LABELS@[b]@ != method);
        }
    }
}

/// A method whose label is not in the first slots has a slot.
proof fn lemma_first_slot(method: Seq<char>, from: int)
    requires
        0 <= from < RPC_METHOD_SLOTS,
        forall|earlier: int|
            0 <= earlier < from ==> (#[trigger] RPC_METHOD_LABELS@[earlier])@ != method,
    ensures
        exists|slot: int| is_slot_of(slot, method),
    decreases RPC_METHOD_SLOTS - from,
{
    if from == RPC_METHOD_SLOTS - 1 || RPC_METHOD_LABELS@[from]@ == method {
        assert(is_slot_of(from, method));
    } else {
        lemma_first_slot(method, from + 1);
    }
}

/// Which method each slot counts.
pub proof fn law_slots_of_the_catalog()
    ensures
        is_slot_of(0, "getBalance"@),
        RPC_METHOD_LABELS@[0]@ == "getBalance"@,
        is_slot_of(1, "getEpochInfo"@),
        RPC_METHOD_LABELS@[1]@ == "getEpochInfo"@,
        is_slot_of(2, "getGenesisHash"@),
        RPC_METHOD_LABELS@[2]@ == "getGenesisHash"@,
        is_slot_of(3, "getHealth"@),
        RPC_METHOD_LABELS@[3]@ == "getHealth"@,
        is_slot_of(4, "getIdentity"@),
        RPC_METHOD_LABELS@[4]@ == "getIdentity"@,
        is_slot_of(5, "getSlot"@),
        RPC_METHOD_LABELS@[5]@ == "getSlot"@,
        is_slot_of(6, "getBlockHeight"@),
        RPC_METHOD_LABELS@[6]@ == "getBlockHeight"@,
        is_slot_of(7, "getHighestSnapshotSlot"@),
        RPC_METHOD_LABELS@[7]@ == "getHighestSnapshotSlot"@,
        is_slot_of(8, "getTransactionCount"@),
        RPC_METHOD_LABELS@[8]@ == "getTransactionCount"@,
        is_slot_of(9, "getVersion"@),
        RPC_METHOD_LABELS@[9]@ == "getVersion"@,
        is_slot_of(10, "getVoteAccounts"@),
        RPC_METHOD_LABELS@[10]@ == "getVoteAccounts"@,
        is_slot_of(11, "getLeaderSchedule"@),
        RPC_METHOD_LABELS@[11]@ == "getLeaderSchedule"@,
        is_slot_of(12, "getMinimumBalanceForRentExemption"@),
        RPC_METHOD_LABELS@[12]@ == "getMinimumBalanceForRentExemption"@,
        is_slot_of(13, "getInflationGovernor"@),
        RPC_METHOD_LABELS@[13]@ == "getInflationGovernor"@,
        is_slot_of(14, "getInflationRate"@),
        RPC_METHOD_LABELS@[14]@ == "getInflationRate"@,
        is_slot_of(15, "getEpochSchedule"@),
        RPC_METHOD_LABELS@[15]@ == "getEpochSchedule"@,
        is_slot_of(16, "getSlotLeader"@),
        RPC_METHOD_LABELS@[16]@ == "getSlotLeader"@,
        is_slot_of(17, "getSlotLeaders"@),
        RPC_METHOD_LABELS@[17]@ == "getSlotLeaders"@,
        is_slot_of(18, "getBlockProduction"@),
        RPC_METHOD_LABELS@[18]@ == "getBlockProduction"@,
        is_slot_of(19, "getAccountInfo"@),
        RPC_METHOD_LABELS@[19]@ == "getAccountInfo"@,
        is_slot_of(20, "getMultipleAccounts"@),
        RPC_METHOD_LABELS@[20]@ == "getMultipleAccounts"@,
        is_slot_of(21, "getBlockCommitment"@),
        RPC_METHOD_LABELS@[21]@ == "getBlockCommitment"@,
        is_slot_of(22, "getTokenAccountBalance"@),
        RPC_METHOD_LABELS@[22]@ == "getTokenAccountBalance"@,
        is_slot_of(23, "getTokenSupply"@),
        RPC_METHOD_LABELS@[23]@ == "getTokenSupply"@,
        is_slot_of(24, "getProgramAccounts"@),
        RPC_METHOD_LABELS@[24]@ == "getProgramAccounts"@,
        is_slot_of(25, "getLargestAccounts"@),
        RPC_METHOD_LABELS@[25]@ == "getLargestAccounts"@,
        is_slot_of(26, "getSupply"@),
        RPC_METHOD_LABELS@[26]@ == "getSupply"@,
        is_slot_of(27, "getTokenLargestAccounts"@),
        RPC_METHOD_LABELS@[27]@ == "getTokenLargestAccounts"@,
        is_slot_of(28, "getTokenAccountsByOwner"@),
        RPC_METHOD_LABELS@[28]@ == "getTokenAccountsByOwner"@,
        is_slot_of(29, "getTokenAccountsByDelegate"@),
        RPC_METHOD_LABELS@[29]@ == "getTokenAccountsByDelegate"@,
        is_slot_of(30, "getInflationReward"@),
        RPC_METHOD_LABELS@[30]@ == "getInflationReward"@,
        is_slot_of(31, "getClusterNodes"@),
        RPC_METHOD_LABELS@[31]@ == "getClusterNodes"@,
        is_slot_of(32, "getRecentPerformanceSamples"@),
        RPC_METHOD_LABELS@[32]@ == "getRecentPerformanceSamples"@,
        is_slot_of(33, "getSignatureStatuses"@),
        RPC_METHOD_LABELS@[33]@ == "getSignatureStatuses"@,
        is_slot_of(34, "getMaxRetransmitSlot"@),
        RPC_METHOD_LABELS@[34]@ == "getMaxRetransmitSlot"@,
        is_slot_of(35, "getMaxShredInsertSlot"@),
        RPC_METHOD_LABELS@[35]@ == "getMaxShredInsertSlot"@,
        is_slot_of(36, "requestAirdrop"@),
        RPC_METHOD_LABELS@[36]@ == "requestAirdrop"@,
        is_slot_of(37, "sendTransaction"@),
        RPC_METHOD_LABELS@[37]@ == "sendTransaction"@,
        is_slot_of(38, "simulateTransaction"@),
        RPC_METHOD_LABELS@[38]@ == "simulateTransaction"@,
        is_slot_of(39, "simulateBundle"@),
        RPC_METHOD_LABELS@[39]@ == "simulateBundle"@,
        is_slot_of(40, "minimumLedgerSlot"@),
        RPC_METHOD_LABELS@[40]@ == "minimumLedgerSlot"@,
        is_slot_of(41, "getBlock"@),
        RPC_METHOD_LABELS@[41]@ == "getBlock"@,
        is_slot_of(42, "getBlockTime"@),
        RPC_METHOD_LABELS@[42]@ == "getBlockTime"@,
        is_slot_of(43, "getBlocks"@),
        RPC_METHOD_LABELS@[43]@ == "getBlocks"@,
        is_slot_of(44, "getBlocksWithLimit"@),
        RPC_METHOD_LABELS@[44]@ == "getBlocksWithLimit"@,
        is_slot_of(45, "getTransaction"@),
        RPC_METHOD_LABELS@[45]@ == "getTransaction"@,
        is_slot_of(46, "getSignaturesForAddress"@),
        RPC_METHOD_LABELS@[46]@ == "getSignaturesForAddress"@,
        is_slot_of(47, "getFirstAvailableBlock"@),
        RPC_METHOD_LABELS@[47]@ == "getFirstAvailableBlock"@,
        is_slot_of(48, "getLatestBlockhash"@),
        RPC_METHOD_LABELS@[48]@ == "getLatestBlockhash"@,
        is_slot_of(49, "isBlockhashValid"@),
        RPC_METHOD_LABELS@[49]@ == "isBlockhashValid"@,
        is_slot_of(50, "getFeeForMessage"@),
        RPC_METHOD_LABELS@[50]@ == "getFeeForMessage"@,
        is_slot_of(51, "getStakeMinimumDelegation"@),
        RPC_METHOD_LABELS@[51]@ == "getStakeMinimumDelegation"@,
        is_slot_of(52, "getRecentPrioritizationFees"@),
        RPC_METHOD_LABELS@[52]@ == "getRecentPrioritizationFees"@,
        is_slot_of(53, "other"@),
        RPC_METHOD_LABELS@[53]@ == "other"@,
{
    law_labels_are_distinct(0, 0);
    law_labels_are_distinct(1, 1);
    law_labels_are_distinct(2, 2);
    law_labels_are_distinct(3, 3);
    law_labels_are_distinct(4, 4);
    law_labels_are_distinct(5, 5);
    law_labels_are_distinct(6, 6);
    law_labels_are_distinct(7, 7);
    law_labels_are_distinct(8, 8);
    law_labels_are_distinct(9, 9);
    law_labels_are_distinct(10, 10);
    law_labels_are_distinct(11, 11);
    law_labels_are_distinct(12, 12);
    law_labels_are_distinct(13, 13);
    law_labels_are_distinct(14, 14);
    law_labels_are_distinct(15, 15);
    law_labels_are_distinct(16, 16);
    law_labels_are_distinct(17, 17);
    law_labels_are_distinct(18, 18);
    law_labels_are_distinct(19, 19);
    law_labels_are_distinct(20, 20);
    law_labels_are_distinct(21, 21);
    law_labels_are_distinct(22, 22);
    law_labels_are_distinct(23, 23);
    law_labels_are_distinct(24, 24);
    law_labels_are_distinct(25, 25);
    law_labels_are_distinct(26, 26);
    law_labels_are_distinct(27, 27);
    law_labels_are_distinct(28, 28);
    law_labels_are_distinct(29, 29);
    law_labels_are_distinct(30, 30);
    law_labels_are_distinct(31, 31);
    law_labels_are_distinct(32, 32);
    law_labels_are_distinct(33, 33);
    law_labels_are_distinct(34, 34);
    law_labels_are_distinct(35, 35);
    law_labels_are_distinct(36, 36);
    law_labels_are_distinct(37, 37);
    law_labels_are_distinct(38, 38);
    law_labels_are_distinct(39, 39);
    law_labels_are_distinct(40, 40);
    law_labels_are_distinct(41, 41);
    law_labels_are_distinct(42, 42);
    law_labels_are_distinct(43, 43);
    law_labels_are_distinct(44, 44);
    law_labels_are_distinct(45, 45);
    law_labels_are_distinct(46, 46);
    law_labels_are_distinct(47, 47);
    law_labels_are_distinct(48, 48);
    law_labels_are_distinct(49, 49);
    law_labels_are_distinct(50, 50);
    law_labels_are_distinct(51, 51);
    law_labels_are_distinct(52, 52);
    law_labels_are_distinct(53, 53);
}

/// A method that no label names is counted in the last slot, and in no other.
pub proof fn law_unknown_methods_share_the_last_slot(method: Seq<char>, slot: int)
    requires
        forall|known: int|
            0 <= known < RPC_METHOD_SLOTS ==> (#[trigger] RPC_METHOD_LABELS@[known])@ != method,
    ensures
        is_slot_of(slot, method) <==> slot == RPC_METHOD_SLOTS - 1,
{
}

} // verus!
