//! The entity catalog: typed views of what the engine reports.
//!
//! The engine's listing operations yield raw records, each carrying its
//! primary name label, a byte size and, for containers, published host ports.
//! The catalog keeps exactly the records whose name parses under this tool's
//! naming scheme, decoded back to display names; foreign or malformed records
//! are dropped silently, and the reserved sentinel image is never surfaced.

use vstd::prelude::*;
use vstd::string::StringSliceAdditionalSpecFns;
use vstd::utf8::encode_utf8;

use crate::names::{
    is_sentinel, parse_container_name, parse_container_spec, parse_image_name, parse_image_spec,
    sentinel, str_eq,
};

verus! {

/// A managed image: a display name and its reported size in bytes.
pub struct Image {
    pub name: String,
    pub size: u64,
}

/// The mathematical view of an [`Image`].
pub struct ImageV {
    pub name: Seq<char>,
    pub size: u64,
}

impl View for Image {
    type V = ImageV;

    open spec fn view(&self) -> ImageV {
        ImageV { name: self.name@, size: self.size }
    }
}

impl DeepView for Image {
    type V = ImageV;

    open spec fn deep_view(&self) -> ImageV {
        self@
    }
}

/// A managed container: a display name, its reported size in bytes, and the
/// first published host port, if one exists.
pub struct Container {
    pub name: String,
    pub size: u64,
    pub port: Option<u16>,
}

/// The mathematical view of a [`Container`].
pub struct ContainerV {
    pub name: Seq<char>,
    pub size: u64,
    pub port: Option<u16>,
}

impl View for Container {
    type V = ContainerV;

    open spec fn view(&self) -> ContainerV {
        ContainerV { name: self.name@, size: self.size, port: self.port }
    }
}

impl DeepView for Container {
    type V = ContainerV;

    open spec fn deep_view(&self) -> ContainerV {
        self@
    }
}

/// A raw image record as the engine reports it: its name labels and size.
pub struct RawImageRecord {
    pub names: Vec<String>,
    pub size: u64,
}

/// The mathematical view of a [`RawImageRecord`].
pub struct RawImageRecordV {
    pub names: Seq<Seq<char>>,
    pub size: u64,
}

impl DeepView for RawImageRecord {
    type V = RawImageRecordV;

    open spec fn deep_view(&self) -> RawImageRecordV {
        RawImageRecordV { names: self.names.deep_view(), size: self.size }
    }
}

/// A raw container record as the engine reports it: its name labels, size,
/// and published host ports.
pub struct RawContainerRecord {
    pub names: Vec<String>,
    pub size: u64,
    pub ports: Vec<u16>,
}

/// The mathematical view of a [`RawContainerRecord`].
pub struct RawContainerRecordV {
    pub names: Seq<Seq<char>>,
    pub size: u64,
    pub ports: Seq<u16>,
}

impl DeepView for RawContainerRecord {
    type V = RawContainerRecordV;

    open spec fn deep_view(&self) -> RawContainerRecordV {
        RawContainerRecordV {
            names: self.names.deep_view(),
            size: self.size,
            ports: self.ports@,
        }
    }
}

/// The catalog entry a raw image record yields: its decoded name and size,
/// or nothing for a foreign, malformed or sentinel record.
pub open spec fn image_of_record(r: RawImageRecordV) -> Option<ImageV> {
    if r.names.len() > 0 {
        match parse_image_spec(encode_utf8(r.names[0])) {
            Some(n) => if n != sentinel() {
                Some(ImageV { name: n, size: r.size })
            } else {
                None
            },
            None => None,
        }
    } else {
        None
    }
}

/// The image catalog of a raw record list, in report order.
pub open spec fn images_of_records(rs: Seq<RawImageRecordV>) -> Seq<ImageV>
    decreases rs.len(),
{
    if rs.len() == 0 {
        Seq::empty()
    } else {
        images_of_records(rs.drop_last()) + (match image_of_record(rs.last()) {
            Some(v) => seq![v],
            None => Seq::<ImageV>::empty(),
        })
    }
}

/// The catalog entry a raw container record yields: its decoded name, size
/// and first published port, or nothing for a foreign or malformed record.
pub open spec fn container_of_record(r: RawContainerRecordV) -> Option<ContainerV> {
    if r.names.len() > 0 {
        match parse_container_spec(encode_utf8(r.names[0])) {
            Some(n) => Some(
                ContainerV {
                    name: n,
                    size: r.size,
                    port: if r.ports.len() > 0 {
                        Some(r.ports[0])
                    } else {
                        None
                    },
                },
            ),
            None => None,
        }
    } else {
        None
    }
}

/// The container catalog of a raw record list, in report order.
pub open spec fn containers_of_records(rs: Seq<RawContainerRecordV>) -> Seq<ContainerV>
    decreases rs.len(),
{
    if rs.len() == 0 {
        Seq::empty()
    } else {
        containers_of_records(rs.drop_last()) + (match container_of_record(rs.last()) {
            Some(v) => seq![v],
            None => Seq::<ContainerV>::empty(),
        })
    }
}

/// A catalog holds an image of the given name.
pub open spec fn has_image(images: Seq<ImageV>, name: Seq<char>) -> bool {
    exists|i: int| 0 <= i < images.len() && images[i].name == name
}

/// A catalog holds a container of the given name.
pub open spec fn has_container(containers: Seq<ContainerV>, name: Seq<char>) -> bool {
    exists|i: int| 0 <= i < containers.len() && containers[i].name == name
}

/// Some catalog container publishes the given host port.
pub open spec fn port_used(containers: Seq<ContainerV>, port: u16) -> bool {
    exists|i: int| 0 <= i < containers.len() && containers[i].port == Some(port)
}

/// Rebuilds the image catalog from the engine's raw records.
///
/// Keeps exactly the records whose first name label carries this tool's image
/// identity shape and decodes, except the reserved sentinel; order follows
/// the records.
pub fn image_list(records: &Vec<RawImageRecord>) -> (r: Vec<Image>)
    ensures
        r.deep_view() == images_of_records(records.deep_view()),
{
    let mut out: Vec<Image> = Vec::new();
    let mut i: usize = 0;
    while i < records.len()
        invariant
            0 <= i <= records@.len(),
            records.deep_view().len() == records@.len(),
            out.deep_view() =~= images_of_records(records.deep_view().take(i as int)),
        decreases records@.len() - i,
    {
        let rec = &records[i];
        let ghost recv = records.deep_view()[i as int];
        proof {
            assert(recv.names.len() == rec.names@.len());
        }
        if rec.names.len() > 0 {
            match parse_image_name(rec.names[0].as_str()) {
                Some(name) => {
                    if !is_sentinel(name.as_str()) {
                        proof {
                            assert(image_of_record(recv) == Some(
                                ImageV { name: name@, size: rec.size },
                            ));
                        }
                        out.push(Image { name, size: rec.size });
                    } else {
                        proof {
                            assert(image_of_record(recv) is None);
                        }
                    }
                },
                None => {
                    proof {
                        assert(image_of_record(recv) is None);
                    }
                },
            }
        }
        proof {
            let rs = records.deep_view();
            assert(rs.take(i + 1).drop_last() =~= rs.take(i as int));
            assert(rs.take(i + 1).last() == recv);
        }
        i += 1;
    }
    proof {
        assert(records.deep_view().take(records@.len() as int) =~= records.deep_view());
    }
    out
}

/// Rebuilds the container catalog from the engine's raw records.
///
/// Keeps exactly the records whose first name label carries this tool's
/// container identity shape and decodes; order follows the records.
pub fn container_list(records: &Vec<RawContainerRecord>) -> (r: Vec<Container>)
    ensures
        r.deep_view() == containers_of_records(records.deep_view()),
{
    let mut out: Vec<Container> = Vec::new();
    let mut i: usize = 0;
    while i < records.len()
        invariant
            0 <= i <= records@.len(),
            records.deep_view().len() == records@.len(),
            out.deep_view() =~= containers_of_records(records.deep_view().take(i as int)),
        decreases records@.len() - i,
    {
        let rec = &records[i];
        let ghost recv = records.deep_view()[i as int];
        proof {
            assert(recv.names.len() == rec.names@.len());
            assert(recv.ports == rec.ports@);
        }
        if rec.names.len() > 0 {
            match parse_container_name(rec.names[0].as_str()) {
                Some(name) => {
                    let port = if rec.ports.len() > 0 {
                        Some(rec.ports[0])
                    } else {
                        None
                    };
                    proof {
                        assert(container_of_record(recv) == Some(
                            ContainerV { name: name@, size: rec.size, port },
                        ));
                    }
                    out.push(Container { name, size: rec.size, port });
                },
                None => {
                    proof {
                        assert(container_of_record(recv) is None);
                    }
                },
            }
        }
        proof {
            let rs = records.deep_view();
            assert(rs.take(i + 1).drop_last() =~= rs.take(i as int));
            assert(rs.take(i + 1).last() == recv);
        }
        i += 1;
    }
    proof {
        assert(records.deep_view().take(records@.len() as int) =~= records.deep_view());
    }
    out
}

/// Whether the image catalog holds an image of the given name.
///
/// An empty catalog simply answers no.
pub fn exists_image(images: &Vec<Image>, name: &str) -> (r: bool)
    ensures
        r <==> has_image(images.deep_view(), name@),
{
    let mut i: usize = 0;
    while i < images.len()
        invariant
            0 <= i <= images@.len(),
            images.deep_view().len() == images@.len(),
            forall|j: int| 0 <= j < i ==> images.deep_view()[j].name != name@,
        decreases images@.len() - i,
    {
        if str_eq(images[i].name.as_str(), name) {
            proof {
                assert(images.deep_view()[i as int].name == name@);
            }
            return true;
        }
        i += 1;
    }
    false
}

/// Whether the container catalog holds a container of the given name.
///
/// An empty catalog simply answers no.
pub fn exists_container(containers: &Vec<Container>, name: &str) -> (r: bool)
    ensures
        r <==> has_container(containers.deep_view(), name@),
{
    let mut i: usize = 0;
    while i < containers.len()
        invariant
            0 <= i <= containers@.len(),
            containers.deep_view().len() == containers@.len(),
            forall|j: int| 0 <= j < i ==> containers.deep_view()[j].name != name@,
        decreases containers@.len() - i,
    {
        if str_eq(containers[i].name.as_str(), name) {
            proof {
                assert(containers.deep_view()[i as int].name == name@);
            }
            return true;
        }
        i += 1;
    }
    false
}

/// Whether some catalog container already publishes the given host port.
pub fn port_in_use(containers: &Vec<Container>, port: u16) -> (r: bool)
    ensures
        r <==> port_used(containers.deep_view(), port),
{
    let mut i: usize = 0;
    while i < containers.len()
        invariant
            0 <= i <= containers@.len(),
            containers.deep_view().len() == containers@.len(),
            forall|j: int| 0 <= j < i ==> containers.deep_view()[j].port != Some(port),
        decreases containers@.len() - i,
    {
        match containers[i].port {
            Some(p) => {
                if p == port {
                    proof {
                        assert(containers.deep_view()[i as int].port == Some(port));
                    }
                    return true;
                }
            },
            None => {},
        }
        i += 1;
    }
    false
}

/// Sentinel exclusion: no image catalog entry ever carries the reserved name,
/// whatever raw records the engine reports.
pub proof fn lemma_sentinel_excluded(rs: Seq<RawImageRecordV>)
    ensures
        forall|i: int|
            0 <= i < images_of_records(rs).len() ==> #[trigger] images_of_records(rs)[i].name
                != sentinel(),
    decreases rs.len(),
{
    if rs.len() > 0 {
        lemma_sentinel_excluded(rs.drop_last());
        let prefix = images_of_records(rs.drop_last());
        let all = images_of_records(rs);
        assert forall|i: int| 0 <= i < all.len() implies #[trigger] all[i].name != sentinel() by {
            if i < prefix.len() {
                assert(all[i] == prefix[i]);
            }
        }
    }
}

} // verus!
