//! What calls of `dmsetup` come to.
//!
//! The calls themselves are made in [`dm`](crate::dm) and [`thin`](crate::thin). Here
//! stands what such a call does to the devices and to the pools of a host, as far as
//! volumes have to do with it.

use vstd::prelude::*;
use vstd::string::*;

use crate::command::InvocationView;
use crate::dm::{create_call, message_call, remove_call, rename_call, swapping};
use crate::text::{
    dec, is_white, is_word, lemma_dec_is_word, lemma_dec_parsed, lemma_words_more, lemma_words_one,
    parsed, words,
};
use crate::thin::{
    activate_call, create_snap_message, create_thin_message, deactivate_call, delete_message,
};

verus! {

/// A device: the table that it goes by, one that waits to take its place, and
/// whether it stands still.
#[verifier::ext_equal]
pub struct Device {
    pub live: Seq<char>,
    pub waiting: Option<Seq<char>>,
    pub suspended: bool,
}

/// The devices of a host by their names, and the volumes of its pools: what each
/// holds, by its id, by the name of the pool.
#[verifier::ext_equal]
pub struct Host {
    pub devices: Map<Seq<char>, Device>,
    pub pools: Map<Seq<char>, Map<nat, Seq<u8>>>,
}

impl Host {
    /// The same, with one device changed or added.
    pub open spec fn with(self, name: Seq<char>, d: Device) -> Host {
        Host { devices: self.devices.insert(name, d), ..self }
    }
}

/// What a message makes of the volumes of a pool; `None` where it is refused.
pub open spec fn told(volumes: Map<nat, Seq<u8>>, message: Seq<char>) -> Option<
    Map<nat, Seq<u8>>,
> {
    let w = words(message);
    if w.len() == 2 && w[0] == "create_thin"@ {
        match parsed(w[1], u64::MAX as nat) {
            Some(id) if !volumes.contains_key(id) => Some(volumes.insert(id, seq![])),
            _ => None,
        }
    } else if w.len() == 3 && w[0] == "create_snap"@ {
        match (parsed(w[1], u64::MAX as nat), parsed(w[2], u64::MAX as nat)) {
            (Some(id), Some(origin)) if !volumes.contains_key(id) && volumes.contains_key(
                origin,
            ) => Some(volumes.insert(id, volumes[origin])),
            _ => None,
        }
    } else if w.len() == 2 && w[0] == "delete"@ {
        match parsed(w[1], u64::MAX as nat) {
            Some(id) if volumes.contains_key(id) => Some(volumes.remove(id)),
            _ => None,
        }
    } else {
        None
    }
}

/// What a call makes of a host; `None` where it is refused.
#[verifier::opaque]
pub open spec fn called(h: Host, call: InvocationView) -> Option<Host> {
    let a = call.args;
    if call.program != "dmsetup"@ || a.len() < 2 {
        None
    } else if a[0] == "create"@ && a.len() == 4 && a[2] == "--table"@ && !h.devices.contains_key(
        a[1],
    ) {
        Some(
            Host {
                devices: h.devices.insert(
                    a[1],
                    Device { live: a[3], waiting: None, suspended: false },
                ),
                ..h
            },
        )
    } else if a[0] == "message"@ && a.len() == 4 && a[2] == "0"@ && h.pools.contains_key(a[1]) {
        match told(h.pools[a[1]], a[3]) {
            Some(volumes) => Some(Host { pools: h.pools.insert(a[1], volumes), ..h }),
            None => None,
        }
    } else if !h.devices.contains_key(a[1]) {
        None
    } else if a[0] == "remove"@ && a.len() == 2 {
        Some(Host { devices: h.devices.remove(a[1]), ..h })
    } else if a[0] == "rename"@ && a.len() == 3 && !h.devices.contains_key(a[2]) {
        Some(Host { devices: h.devices.remove(a[1]).insert(a[2], h.devices[a[1]]), ..h })
    } else if a[0] == "suspend"@ && a.len() == 2 {
        Some(
            Host {
                devices: h.devices.insert(a[1], Device { suspended: true, ..h.devices[a[1]] }),
                ..h
            },
        )
    } else if a[0] == "load"@ && a.len() == 4 && a[2] == "--table"@ {
        Some(
            Host {
                devices: h.devices.insert(
                    a[1],
                    Device { waiting: Some(a[3]), ..h.devices[a[1]] },
                ),
                ..h
            },
        )
    } else if a[0] == "resume"@ && a.len() == 2 {
        let d = h.devices[a[1]];
        Some(
            Host {
                devices: h.devices.insert(
                    a[1],
                    Device {
                        live: match d.waiting {
                            Some(t) => t,
                            None => d.live,
                        },
                        waiting: None,
                        suspended: false,
                    },
                ),
                ..h
            },
        )
    } else {
        None
    }
}

/// What a table says: that the first so many sectors are those of a volume of the
/// pool that shows at a path.
pub open spec fn says_thin(table: Seq<char>, sectors: nat, pool_path: Seq<char>, id: nat) -> bool {
    let w = words(table);
    &&& w.len() == 5
    &&& parsed(w[0], u64::MAX as nat) == Some(0nat)
    &&& parsed(w[1], u64::MAX as nat) == Some(sectors)
    &&& w[2] == "thin"@
    &&& w[3] == pool_path
    &&& parsed(w[4], u64::MAX as nat) == Some(id)
}

proof fn lemma_verbs()
    ensures
        "create"@ != "message"@,
        "create"@ != "remove"@,
        "create"@ != "suspend"@,
        "create"@ != "load"@,
        "create"@ != "resume"@,
        "message"@ != "remove"@,
        "message"@ != "suspend"@,
        "message"@ != "load"@,
        "message"@ != "resume"@,
        "remove"@ != "suspend"@,
        "remove"@ != "load"@,
        "remove"@ != "resume"@,
        "suspend"@ != "load"@,
        "suspend"@ != "resume"@,
        "load"@ != "resume"@,
        "rename"@ != "create"@,
        "rename"@ != "message"@,
        "rename"@ != "remove"@,
        "rename"@ != "suspend"@,
        "rename"@ != "load"@,
        "rename"@ != "resume"@,
{
    reveal_strlit("rename");
    assert("rename"@[0] == 'r' && "rename"@[2] == 'n');
    reveal_strlit("create");
    reveal_strlit("message");
    reveal_strlit("remove");
    reveal_strlit("suspend");
    reveal_strlit("load");
    reveal_strlit("resume");
    assert("create"@[0] == 'c');
    assert("message"@[0] == 'm');
    assert("remove"@[0] == 'r' && "remove"@[2] == 'm');
    assert("suspend"@[0] == 's');
    assert("load"@[0] == 'l');
    assert("resume"@[0] == 'r' && "resume"@[2] == 's');
}

proof fn lemma_orders()
    ensures
        is_word("create_thin"@),
        is_word("create_snap"@),
        is_word("delete"@),
        "create_thin"@ != "create_snap"@,
        "create_thin"@ != "delete"@,
        "create_snap"@ != "delete"@,
{
    reveal_strlit("create_thin");
    reveal_strlit("create_snap");
    reveal_strlit("delete");
    assert("create_thin"@[7] == 't');
    assert("create_snap"@[7] == 's');
    assert("delete"@[0] == 'd');
    assert("create_thin"@[0] == 'c');
}

/// The message for a new volume is accepted where its id is free. It adds a volume
/// that holds nothing, and leaves all others as they are.
pub proof fn law_a_new_volume_is_empty(h: Host, pool: Seq<char>, id: u64)
    requires
        h.pools.contains_key(pool),
        !h.pools[pool].contains_key(id as nat),
    ensures
        called(h, message_call(pool, create_thin_message(id as nat))) == Some(
            Host {
                pools: h.pools.insert(pool, h.pools[pool].insert(id as nat, seq![])),
                ..h
            },
        ),
{
    reveal(called);
    lemma_verbs();
    lemma_orders();
    let n = id as nat;
    reveal_strlit("create_thin ");
    reveal_strlit("create_thin");
    reveal_strlit(" ");
    lemma_dec_is_word(n);
    lemma_dec_parsed(n, u64::MAX as nat);
    lemma_words_one("create_thin"@);
    assert("create_thin "@ =~= "create_thin"@ + " "@);
    assert(create_thin_message(n) =~= "create_thin"@ + " "@ + dec(n));
    lemma_words_more("create_thin"@, dec(n));
}

/// The message for a snapshot is accepted where its id is free and its origin is
/// there. It adds a volume that holds what the origin holds, and leaves all others,
/// the origin among them, as they are.
pub proof fn law_a_snapshot_is_its_origin(h: Host, pool: Seq<char>, id: u64, src_id: u64)
    requires
        h.pools.contains_key(pool),
        h.pools[pool].contains_key(src_id as nat),
        !h.pools[pool].contains_key(id as nat),
    ensures
        called(h, message_call(pool, create_snap_message(id as nat, src_id as nat))) == Some(
            Host {
                pools: h.pools.insert(
                    pool,
                    h.pools[pool].insert(id as nat, h.pools[pool][src_id as nat]),
                ),
                ..h
            },
        ),
{
    reveal(called);
    lemma_verbs();
    lemma_orders();
    let n = id as nat;
    let o = src_id as nat;
    reveal_strlit("create_snap ");
    reveal_strlit("create_snap");
    reveal_strlit(" ");
    lemma_dec_is_word(n);
    lemma_dec_is_word(o);
    lemma_dec_parsed(n, u64::MAX as nat);
    lemma_dec_parsed(o, u64::MAX as nat);
    lemma_words_one("create_snap"@);
    assert("create_snap "@ =~= "create_snap"@ + " "@);
    let first = "create_snap"@ + " "@ + dec(n);
    assert(create_snap_message(n, o) =~= first + " "@ + dec(o));
    lemma_words_more("create_snap"@, dec(n));
    lemma_words_more(first, dec(o));
}

/// The message that deletes a volume takes that volume away and no other, so that
/// its id is free again.
pub proof fn law_a_deleted_volume_is_gone(h: Host, pool: Seq<char>, id: u64)
    requires
        h.pools.contains_key(pool),
        h.pools[pool].contains_key(id as nat),
    ensures
        called(h, message_call(pool, delete_message(id as nat))) == Some(
            Host { pools: h.pools.insert(pool, h.pools[pool].remove(id as nat)), ..h },
        ),
{
    reveal(called);
    lemma_verbs();
    lemma_orders();
    let n = id as nat;
    reveal_strlit("delete ");
    reveal_strlit("delete");
    reveal_strlit(" ");
    lemma_dec_is_word(n);
    lemma_dec_parsed(n, u64::MAX as nat);
    lemma_words_one("delete"@);
    assert("delete "@ =~= "delete"@ + " "@);
    assert(delete_message(n) =~= "delete"@ + " "@ + dec(n));
    lemma_words_more("delete"@, dec(n));
}

proof fn lemma_table(pool: Seq<char>, id: nat, sectors: nat)
    requires
        forall|i: int| 0 <= i < pool.len() ==> !is_white(#[trigger] pool[i]),
        id <= u64::MAX,
        sectors <= u64::MAX,
    ensures
        says_thin(
            crate::thin::thin_table_of(pool, id, sectors),
            sectors,
            "/dev/mapper/"@ + pool,
            id,
        ),
{
    let path = "/dev/mapper/"@ + pool;
    reveal_strlit("0 ");
    reveal_strlit(" ");
    reveal_strlit(" thin ");
    reveal_strlit("thin");
    reveal_strlit("/dev/mapper/");
    lemma_dec_is_word(0);
    lemma_dec_is_word(id);
    lemma_dec_is_word(sectors);
    lemma_dec_parsed(0, u64::MAX as nat);
    lemma_dec_parsed(id, u64::MAX as nat);
    lemma_dec_parsed(sectors, u64::MAX as nat);
    assert(dec(0) =~= seq!['0']);
    let a = dec(0);
    let b = a + " "@ + dec(sectors);
    let c = b + " "@ + "thin"@;
    let d = c + " "@ + path;
    let e = d + " "@ + dec(id);
    assert("0 "@ =~= a + " "@);
    assert(" thin "@ =~= " "@ + "thin"@ + " "@);
    assert(crate::thin::thin_table_of(pool, id, sectors) =~= e);
    assert(is_word("thin"@));
    assert(is_word(path)) by {
        assert forall|i: int| 0 <= i < path.len() implies !is_white(#[trigger] path[i]) by {
            if i >= 12 {
                assert(path[i] == pool[i - 12]);
            } else {
                assert(path[i] == "/dev/mapper/"@[i]);
            }
        }
    }
    lemma_words_one(a);
    lemma_words_more(a, dec(sectors));
    lemma_words_more(b, "thin"@);
    lemma_words_more(c, path);
    lemma_words_more(d, dec(id));
}

/// A volume that is activated shows under its name with its size: as the volume of
/// that id in that pool. When it is deactivated, it is as it was before.
pub proof fn law_an_active_volume_is_the_one_of_its_id(
    h: Host,
    name: Seq<char>,
    pool: Seq<char>,
    id: u64,
    sectors: u64,
)
    requires
        !h.devices.contains_key(name),
        forall|i: int| 0 <= i < pool.len() ==> !is_white(#[trigger] pool[i]),
    ensures
        ({
            let up = called(h, activate_call(name, pool, id as nat, sectors as nat));
            &&& up is Some
            &&& up->0.pools == h.pools
            &&& up->0.devices.remove(name) == h.devices
            &&& up->0.devices.contains_key(name)
            &&& !up->0.devices[name].suspended
            &&& says_thin(
                up->0.devices[name].live,
                sectors as nat,
                "/dev/mapper/"@ + pool,
                id as nat,
            )
            &&& called(up->0, deactivate_call(name)) == Some(h)
        }),
{
    reveal(called);
    lemma_verbs();
    lemma_table(pool, id as nat, sectors as nat);
    let up = called(h, activate_call(name, pool, id as nat, sectors as nat))->0;
    assert(up.devices.remove(name) =~= h.devices);
}

/// A volume that gets another size has it in the end and goes on; where the new table
/// was refused it goes on with the old one.
pub proof fn law_a_reloaded_volume_goes_on(
    h: Host,
    name: Seq<char>,
    pool: Seq<char>,
    id: u64,
    sectors: u64,
)
    requires
        h.devices.contains_key(name),
        h.devices[name].waiting is None,
        !h.devices[name].suspended,
        forall|i: int| 0 <= i < pool.len() ==> !is_white(#[trigger] pool[i]),
    ensures
        ({
            let p = crate::thin::reloading(name, pool, id as nat, sectors as nat);
            let still = called(h, p[0].action);
            let loaded = called(still->0, p[1].action);
            let done = called(loaded->0, p[2].action);
            &&& p.len() == 3
            &&& still is Some && still->0.devices[name].suspended
            &&& loaded is Some && loaded->0.devices[name].suspended
            &&& loaded->0.devices[name].live == h.devices[name].live
            &&& done is Some && !done->0.devices[name].suspended
            &&& says_thin(
                done->0.devices[name].live,
                sectors as nat,
                "/dev/mapper/"@ + pool,
                id as nat,
            )
            &&& p[1].undo.len() == 1
            &&& called(still->0, p[1].undo[0]) == Some(h)
            &&& !p[0].tolerate && !p[1].tolerate && !p[2].tolerate
        }),
{
    lemma_table(pool, id as nat, sectors as nat);
    let p = crate::thin::reloading(name, pool, id as nat, sectors as nat);
    let d = h.devices[name];
    let table = crate::thin::thin_table_of(pool, id as nat, sectors as nat);
    let still = h.with(name, Device { suspended: true, ..d });
    let loaded = still.with(name, Device { waiting: Some(table), suspended: true, ..d });
    let done = loaded.with(name, Device { live: table, waiting: None, suspended: false });
    let back = still.with(name, Device { suspended: false, ..d });
    assert(called(h, p[0].action) == Some(still)) by {
        reveal(called);
        lemma_verbs();
    }
    assert(called(still, p[1].action) == Some(loaded)) by {
        reveal(called);
        lemma_verbs();
    }
    assert(called(loaded, p[2].action) == Some(done)) by {
        reveal(called);
        lemma_verbs();
    }
    assert(called(still, p[1].undo[0]) == Some(back)) by {
        reveal(called);
        lemma_verbs();
    }
    assert(back.devices =~= h.devices);
}

/// A device that gets another name is as it was under the new one, and the old name is
/// free.
pub proof fn law_a_renamed_device_is_the_same(h: Host, old_name: Seq<char>, new_name: Seq<char>)
    requires
        h.devices.contains_key(old_name),
        !h.devices.contains_key(new_name),
    ensures
        called(h, rename_call(old_name, new_name)) == Some(
            Host {
                devices: h.devices.remove(old_name).insert(new_name, h.devices[old_name]),
                ..h
            },
        ),
{
    reveal(called);
    lemma_verbs();
}

/// A device that is created goes by its table. One whose table is swapped goes by the new
/// one in the end and is not suspended meanwhile; one that is removed is gone.
pub proof fn law_devices_come_change_and_go(
    h: Host,
    name: Seq<char>,
    table: Seq<char>,
    new_table: Seq<char>,
)
    requires
        !h.devices.contains_key(name),
    ensures
        ({
            let there = called(h, create_call(name, table));
            let p = swapping(name, new_table);
            let loaded = called(there->0, p[0].action);
            let swapped = called(loaded->0, p[1].action);
            let gone = called(swapped->0, remove_call(name));
            &&& there is Some && there->0.devices.contains_key(name)
            &&& there->0.devices[name].live == table && !there->0.devices[name].suspended
            &&& p.len() == 2
            &&& loaded is Some && !loaded->0.devices[name].suspended
            &&& swapped is Some && swapped->0.devices[name] == (Device {
                live: new_table,
                waiting: None,
                suspended: false,
            })
            &&& gone == Some(h)
        }),
{
    let p = swapping(name, new_table);
    let there = h.with(name, Device { live: table, waiting: None, suspended: false });
    let loaded = there.with(
        name,
        Device { live: table, waiting: Some(new_table), suspended: false },
    );
    let swapped = loaded.with(
        name,
        Device { live: new_table, waiting: None, suspended: false },
    );
    let gone = Host { devices: swapped.devices.remove(name), ..swapped };
    assert(called(h, create_call(name, table)) == Some(there)) by {
        reveal(called);
        lemma_verbs();
    }
    assert(called(there, p[0].action) == Some(loaded)) by {
        reveal(called);
        lemma_verbs();
    }
    assert(called(loaded, p[1].action) == Some(swapped)) by {
        reveal(called);
        lemma_verbs();
    }
    assert(called(swapped, remove_call(name)) == Some(gone)) by {
        reveal(called);
        lemma_verbs();
    }
    assert(gone.devices =~= h.devices);
}

} // verus!
