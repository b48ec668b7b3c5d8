//! Which of the objects on the bus are Bluetooth adapters and devices.

use vstd::prelude::*;

use crate::names::find_name;

verus! {

/// An object, and the interfaces it has.
#[derive(Debug)]
pub struct ManagedObject {
    pub path: String,
    pub interfaces: Vec<String>,
}

/// Whether an object has an interface.
pub open spec fn has_interface(object: ManagedObject, name: Seq<char>) -> bool {
    crate::text::views(object.interfaces@).contains(name)
}

fn offers(object: &ManagedObject, name: &str) -> (r: bool)
    ensures
        r == has_interface(*object, name@),
{
    find_name(&object.interfaces, name).is_some()
}

/// Whether an object is a device.
pub fn is_device(object: &ManagedObject) -> (r: bool)
    ensures
        r == has_interface(*object, "org.bluez.Device1"@),
{
    offers(object, "org.bluez.Device1")
}

/// The first of the objects that is an adapter.
pub fn find_adapter(objects: &Vec<ManagedObject>) -> (r: Option<usize>)
    ensures
        match r {
            Some(i) => {
                &&& i < objects@.len()
                &&& has_interface(objects@[i as int], "org.bluez.Adapter1"@)
                &&& forall|j: int|
                    0 <= j < i ==> !has_interface(#[trigger] objects@[j], "org.bluez.Adapter1"@)
            },
            None => forall|j: int|
                0 <= j < objects@.len() ==> !has_interface(
                    #[trigger] objects@[j],
                    "org.bluez.Adapter1"@,
                ),
        },
{
    for i in 0..objects.len()
        invariant
            forall|j: int|
                0 <= j < i ==> !has_interface(#[trigger] objects@[j], "org.bluez.Adapter1"@),
    {
        if offers(&objects[i], "org.bluez.Adapter1") {
            return Some(i);
        }
    }
    None
}

/// The paths of the devices among the first `n` objects.
pub open spec fn device_paths(objects: Seq<ManagedObject>, n: int) -> Seq<Seq<char>>
    decreases n,
{
    if n <= 0 {
        Seq::empty()
    } else if has_interface(objects[n - 1], "org.bluez.Device1"@) {
        device_paths(objects, n - 1).push(objects[n - 1].path@)
    } else {
        device_paths(objects, n - 1)
    }
}

/// The devices among the objects.
pub fn find_devices(objects: &Vec<ManagedObject>) -> (r: Vec<String>)
    ensures
        crate::text::views(r@) == device_paths(objects@, objects@.len() as int),
{
    let mut out: Vec<String> = Vec::new();
    assert(crate::text::views(out@) =~= device_paths(objects@, 0));
    for i in 0..objects.len()
        invariant
            crate::text::views(out@) == device_paths(objects@, i as int),
    {
        if is_device(&objects[i]) {
            let ghost was = out@;
            out.push(objects[i].path.clone());
            assert(crate::text::views(out@) =~= crate::text::views(was).push(
                objects@[i as int].path@,
            ));
        }
    }
    out
}

/// Every object that is a device is found by its path, and nothing else is.
pub proof fn law_every_device_is_found(objects: Seq<ManagedObject>, n: int, path: Seq<char>)
    requires
        0 <= n <= objects.len(),
    ensures
        device_paths(objects, n).contains(path) <==> exists|i: int|
            0 <= i < n && has_interface(#[trigger] objects[i], "org.bluez.Device1"@)
                && objects[i].path@ == path,
        device_paths(objects, n).len() <= n,
    decreases n,
{
    if n > 0 {
        law_every_device_is_found(objects, n - 1, path);
        let before = device_paths(objects, n - 1);
        let all = device_paths(objects, n);
        if before.contains(path) {
            let k = choose|k: int| 0 <= k < before.len() && before[k] == path;
            assert(all[k] == path);
        }
        if has_interface(objects[n - 1], "org.bluez.Device1"@) {
            assert(all[before.len() as int] == objects[n - 1].path@);
        }
        if all.contains(path) && !before.contains(path) {
            let k = choose|k: int| 0 <= k < all.len() && all[k] == path;
            if k < before.len() {
                assert(before[k] == path);
            }
            assert(objects[n - 1].path@ == path);
        }
    }
}

/// An object has the interfaces that it lists.
pub proof fn law_interfaces_are_listed(object: ManagedObject, i: int)
    requires
        0 <= i < object.interfaces@.len(),
    ensures
        has_interface(object, object.interfaces@[i]@),
{
    let names = crate::text::views(object.interfaces@);
    assert(names[i] == object.interfaces@[i]@);
}

} // verus!
