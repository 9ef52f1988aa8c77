//! Deterministic renderers from a container model into textual modeling
//! notations: a declarative package, an activity diagram over the
//! instruction trace, and a block diagram over the declared endpoints and
//! mounts. Generated sub-elements are named by position in their list.

use vstd::prelude::*;

use crate::parse_dockerfile::{labels_view, mount_points, ExposedPort, ParsedContainer};
use crate::util::{dec_of_u64, dec_str};

verus! {

broadcast use vstd::string::group_string_axioms;

// ---------------------------------------------------------------------------
// The declarative package
// ---------------------------------------------------------------------------

/// The fixed schema preamble shared by every generated package: reusable
/// attribute, part and port definitions.
pub open spec fn spec_package_header() -> Seq<char> {
    r#" {
    import ScalarValues::*;

    attribute def image;
    attribute def label;
    attribute def maintainer;
    attribute def mountPoint;

    // Part Definition: Container
    part def Container {
        attribute image: String;
        attribute label: String[0..*];
        attribute maintainer: String[0..*];

        port networkPorts: NetworkPort[0..*];
        port volumePorts: VolumePort[0..*];
    }

    part def BaseImage {
        attribute imageName: String;
    }

    // Port Definition: NetworkPort
    port def NetworkPort {
        enum def Protocol {
            enum UDP;
            enum TCP;
        }

        attribute protocol: Protocol;
        attribute portNumber: Integer;
    }

    // Port Definition: VolumePort
    port def VolumePort {
        attribute mountPoint: String;
    }
    "#@
}

/// One label redefinition line.
pub open spec fn label_entry_text(p: (Seq<char>, Seq<char>)) -> Seq<char> {
    "            attribute "@ + p.0 + " redefines label = \""@ + p.1 + "\";\n"@
}

/// All label redefinition lines, in stored order.
pub open spec fn label_entries_text(ls: Seq<(Seq<char>, Seq<char>)>) -> Seq<char>
    decreases ls.len(),
{
    if ls.len() == 0 {
        Seq::empty()
    } else {
        label_entries_text(ls.drop_last()) + label_entry_text(ls.last())
    }
}

/// One network-port sub-part, named by its position.
pub open spec fn port_entry_text(e: ExposedPort, i: int) -> Seq<char> {
    "            port port"@ + dec_str(i as nat) + ": NetworkPort {\n"@
        + "                protocol redefines protocol = Protocol::"@ + e.protocol.spec_text()
        + ";\n"@ + "                portNumber redefines portNumber = "@ + dec_str(
        e.port_number as nat,
    ) + ";\n"@ + "            }\n"@
}

/// The first `n` network-port sub-parts.
pub open spec fn port_entries_text(ps: Seq<ExposedPort>, n: int) -> Seq<char>
    decreases n,
{
    if n <= 0 {
        Seq::empty()
    } else {
        port_entries_text(ps, n - 1) + port_entry_text(ps[n - 1], n - 1)
    }
}

/// One volume-port sub-part, named by its position.
pub open spec fn volume_entry_text(m: Seq<char>, i: int) -> Seq<char> {
    "            port volume"@ + dec_str(i as nat) + ": VolumePort {\n"@
        + "                mountPoint redefines mountPoint = \""@ + m + "\";\n"@
        + "            }\n"@
}

/// The first `n` volume-port sub-parts.
pub open spec fn volume_entries_text(ms: Seq<Seq<char>>, n: int) -> Seq<char>
    decreases n,
{
    if n <= 0 {
        Seq::empty()
    } else {
        volume_entries_text(ms, n - 1) + volume_entry_text(ms[n - 1], n - 1)
    }
}

/// The whole package: the schema preamble, one base-image part, and one
/// container part holding the label redefinitions and the port and volume
/// sub-parts.
pub open spec fn spec_sysml_package(c: ParsedContainer) -> Seq<char> {
    "package "@ + c.name@ + "Model"@ + spec_package_header() + "part "@ + c.name@ + "System {\n"@
        + "        part "@ + c.name@ + "Base: BaseImage {\n"@
        + "                attribute imageName redefines imageName = \""@ + c.base_image@
        + "\";\n"@ + "            }\n"@ + "        part "@ + c.name@ + ": Container {\n"@
        + label_entries_text(labels_view(c.labels@)) + port_entries_text(
        c.exposed_ports@,
        c.exposed_ports@.len() as int,
    ) + volume_entries_text(mount_points(c.volumes@), c.volumes@.len() as int) + "        }\n"@
        + "    }\n"@ + "}\n"@
}

fn render_labels(labels: &Vec<(String, String)>) -> (r: String)
    ensures
        r@ == label_entries_text(labels_view(labels@)),
{
    let ghost lv = labels_view(labels@);
    let n = labels.len();
    let mut r = String::new();
    let mut i: usize = 0;
    while i < n
        invariant
            lv == labels_view(labels@),
            n == labels@.len(),
            0 <= i <= n,
            r@ == label_entries_text(lv.subrange(0, i as int)),
        decreases n - i,
    {
        proof {
            assert(lv.subrange(0, i + 1).drop_last() =~= lv.subrange(0, i as int));
            assert(lv.subrange(0, i + 1).last() == lv[i as int]);
        }
        r.append("            attribute ");
        r.append(labels[i].0.as_str());
        r.append(" redefines label = \"");
        r.append(labels[i].1.as_str());
        r.append("\";\n");
        assert(r@ =~= label_entries_text(lv.subrange(0, i + 1)));
        i += 1;
    }
    proof {
        assert(lv.subrange(0, n as int) =~= lv);
    }
    r
}

fn render_ports(ports: &Vec<ExposedPort>) -> (r: String)
    ensures
        r@ == port_entries_text(ports@, ports@.len() as int),
{
    let n = ports.len();
    let mut r = String::new();
    let mut i: usize = 0;
    while i < n
        invariant
            n == ports@.len(),
            0 <= i <= n,
            r@ == port_entries_text(ports@, i as int),
        decreases n - i,
    {
        let e = ports[i];
        r.append("            port port");
        let idx = dec_of_u64(i as u64);
        r.append(idx.as_str());
        r.append(": NetworkPort {\n");
        r.append("                protocol redefines protocol = Protocol::");
        r.append(e.protocol.as_text());
        r.append(";\n");
        r.append("                portNumber redefines portNumber = ");
        let num = dec_of_u64(e.port_number as u64);
        r.append(num.as_str());
        r.append(";\n");
        r.append("            }\n");
        assert(r@ =~= port_entries_text(ports@, i + 1));
        i += 1;
    }
    r
}

fn render_volumes(volumes: &Vec<crate::parse_dockerfile::VolumeMount>) -> (r: String)
    ensures
        r@ == volume_entries_text(mount_points(volumes@), volumes@.len() as int),
{
    let ghost mv = mount_points(volumes@);
    let n = volumes.len();
    let mut r = String::new();
    let mut i: usize = 0;
    while i < n
        invariant
            mv == mount_points(volumes@),
            n == volumes@.len(),
            0 <= i <= n,
            r@ == volume_entries_text(mv, i as int),
        decreases n - i,
    {
        r.append("            port volume");
        let idx = dec_of_u64(i as u64);
        r.append(idx.as_str());
        r.append(": VolumePort {\n");
        r.append("                mountPoint redefines mountPoint = \"");
        r.append(volumes[i].mount_point.as_str());
        r.append("\";\n");
        r.append("            }\n");
        proof {
            assert(mv[i as int] == volumes@[i as int].mount_point@);
        }
        assert(r@ =~= volume_entries_text(mv, i + 1));
        i += 1;
    }
    r
}

/// Renders the declarative package for a container model: a self-contained
/// textual unit holding the schema preamble, the base image, and the
/// container with its labels, endpoints and mounts.
pub fn sysml_cargotecture_package(container: &ParsedContainer) -> (r: String)
    ensures
        r@ == spec_sysml_package(*container),
{
    let name = container.name.as_str();
    let mut package = String::from_str("package ");
    package.append(name);
    package.append("Model");
    package.append(
        r#" {
    import ScalarValues::*;

    attribute def image;
    attribute def label;
    attribute def maintainer;
    attribute def mountPoint;

    // Part Definition: Container
    part def Container {
        attribute image: String;
        attribute label: String[0..*];
        attribute maintainer: String[0..*];

        port networkPorts: NetworkPort[0..*];
        port volumePorts: VolumePort[0..*];
    }

    part def BaseImage {
        attribute imageName: String;
    }

    // Port Definition: NetworkPort
    port def NetworkPort {
        enum def Protocol {
            enum UDP;
            enum TCP;
        }

        attribute protocol: Protocol;
        attribute portNumber: Integer;
    }

    // Port Definition: VolumePort
    port def VolumePort {
        attribute mountPoint: String;
    }
    "#,
    );
    package.append("part ");
    package.append(name);
    package.append("System {\n");
    package.append("        part ");
    package.append(name);
    package.append("Base: BaseImage {\n");
    package.append("                attribute imageName redefines imageName = \"");
    package.append(container.base_image.as_str());
    package.append("\";\n");
    package.append("            }\n");
    package.append("        part ");
    package.append(name);
    package.append(": Container {\n");
    let labels_txt = render_labels(&container.labels);
    package.append(labels_txt.as_str());
    let ports_txt = render_ports(&container.exposed_ports);
    package.append(ports_txt.as_str());
    let vols_txt = render_volumes(&container.volumes);
    package.append(vols_txt.as_str());
    package.append("        }\n");
    package.append("    }\n");
    package.append("}\n");
    assert(package@ =~= spec_sysml_package(*container));
    package
}

// ---------------------------------------------------------------------------
// The activity diagram
// ---------------------------------------------------------------------------

/// One action block: the instruction's raw text, named by trace position.
pub open spec fn action_entry_text(raw: Seq<char>, i: int) -> Seq<char> {
    "    action action"@ + dec_str(i as nat) + " : \""@ + raw + "\";\n"@
}

/// The first `n` action blocks of a trace.
pub open spec fn action_entries_text(ts: Seq<Seq<char>>, n: int) -> Seq<char>
    decreases n,
{
    if n <= 0 {
        Seq::empty()
    } else {
        action_entries_text(ts, n - 1) + action_entry_text(ts[n - 1], n - 1)
    }
}

/// One control transition between consecutive actions, by index.
pub open spec fn edge_entry_text(i: int) -> Seq<char> {
    "    control from action"@ + dec_str(i as nat) + " to action"@ + dec_str((i + 1) as nat)
        + ";\n"@
}

/// The first `n` control transitions.
pub open spec fn edge_entries_text(n: int) -> Seq<char>
    decreases n,
{
    if n <= 0 {
        Seq::empty()
    } else {
        edge_entries_text(n - 1) + edge_entry_text(n - 1)
    }
}

/// The whole activity diagram: one action block per trace entry, in trace
/// order, and one control transition between each consecutive pair.
pub open spec fn spec_activity_diagram(c: ParsedContainer) -> Seq<char> {
    "activity def "@ + c.name@ + "Activity {\n"@ + action_entries_text(
        c.containerfile.deep_view(),
        c.containerfile@.len() as int,
    ) + edge_entries_text(c.containerfile@.len() - 1) + "}\n"@
}

/// The action blocks of the activity diagram: exactly one per trace entry.
pub fn sysml_activity_actions(c: &ParsedContainer) -> (r: Vec<String>)
    ensures
        r@.len() == c.containerfile@.len(),
        forall|i: int|
            0 <= i < r@.len() ==> (#[trigger] r@[i])@ == action_entry_text(
                c.containerfile.deep_view()[i],
                i,
            ),
{
    let ghost tv = c.containerfile.deep_view();
    let n = c.containerfile.len();
    let mut r: Vec<String> = Vec::new();
    let mut i: usize = 0;
    while i < n
        invariant
            tv == c.containerfile.deep_view(),
            n == c.containerfile@.len(),
            0 <= i <= n,
            r@.len() == i,
            forall|j: int| 0 <= j < i ==> (#[trigger] r@[j])@ == action_entry_text(tv[j], j),
        decreases n - i,
    {
        let mut line = String::from_str("    action action");
        let idx = dec_of_u64(i as u64);
        line.append(idx.as_str());
        line.append(" : \"");
        line.append(c.containerfile[i].as_str());
        line.append("\";\n");
        assert(line@ =~= action_entry_text(tv[i as int], i as int));
        r.push(line);
        i += 1;
    }
    r
}

/// The control transitions of the activity diagram: exactly one fewer than
/// the trace has entries.
pub fn sysml_activity_edges(c: &ParsedContainer) -> (r: Vec<String>)
    requires
        c.containerfile@.len() >= 1,
    ensures
        r@.len() == c.containerfile@.len() - 1,
        forall|i: int| 0 <= i < r@.len() ==> (#[trigger] r@[i])@ == edge_entry_text(i),
{
    let n = c.containerfile.len();
    let mut r: Vec<String> = Vec::new();
    let mut i: usize = 0;
    while i < n - 1
        invariant
            1 <= n == c.containerfile@.len(),
            0 <= i <= n - 1,
            r@.len() == i,
            forall|j: int| 0 <= j < i ==> (#[trigger] r@[j])@ == edge_entry_text(j),
        decreases n - 1 - i,
    {
        let mut line = String::from_str("    control from action");
        let idx = dec_of_u64(i as u64);
        line.append(idx.as_str());
        line.append(" to action");
        let idx2 = dec_of_u64((i + 1) as u64);
        line.append(idx2.as_str());
        line.append(";\n");
        assert(line@ =~= edge_entry_text(i as int));
        r.push(line);
        i += 1;
    }
    r
}

/// Renders the activity diagram for a container model. The model must have
/// walked at least one instruction: a trace-less model has no first action
/// to anchor the transitions.
pub fn sysml_activity_diagram(c: &ParsedContainer) -> (r: String)
    requires
        c.containerfile@.len() >= 1,
    ensures
        r@ == spec_activity_diagram(*c),
{
    let ghost tv = c.containerfile.deep_view();
    let mut out = String::from_str("activity def ");
    out.append(c.name.as_str());
    out.append("Activity {\n");
    let actions = sysml_activity_actions(c);
    let na = actions.len();
    let mut i: usize = 0;
    while i < na
        invariant
            tv == c.containerfile.deep_view(),
            na == actions@.len(),
            na == c.containerfile@.len(),
            forall|j: int|
                0 <= j < na ==> (#[trigger] actions@[j])@ == action_entry_text(tv[j], j),
            0 <= i <= na,
            out@ == "activity def "@ + c.name@ + "Activity {\n"@ + action_entries_text(
                tv,
                i as int,
            ),
        decreases na - i,
    {
        out.append(actions[i].as_str());
        assert(out@ =~= "activity def "@ + c.name@ + "Activity {\n"@ + action_entries_text(
            tv,
            i + 1,
        ));
        i += 1;
    }
    let edges = sysml_activity_edges(c);
    let ne = edges.len();
    let ghost head = "activity def "@ + c.name@ + "Activity {\n"@ + action_entries_text(
        tv,
        na as int,
    );
    let mut i: usize = 0;
    while i < ne
        invariant
            ne == edges@.len(),
            forall|j: int| 0 <= j < ne ==> (#[trigger] edges@[j])@ == edge_entry_text(j),
            0 <= i <= ne,
            out@ == head + edge_entries_text(i as int),
        decreases ne - i,
    {
        out.append(edges[i].as_str());
        assert(out@ =~= head + edge_entries_text(i + 1));
        i += 1;
    }
    out.append("}\n");
    assert(out@ =~= spec_activity_diagram(*c));
    out
}

// ---------------------------------------------------------------------------
// The block diagram
// ---------------------------------------------------------------------------

/// One network-port line of the block diagram, by position.
pub open spec fn block_port_text(i: int) -> Seq<char> {
    "    port port"@ + dec_str(i as nat) + " : NetworkPort;\n"@
}

pub open spec fn block_ports_text(n: int) -> Seq<char>
    decreases n,
{
    if n <= 0 {
        Seq::empty()
    } else {
        block_ports_text(n - 1) + block_port_text(n - 1)
    }
}

/// One volume-port line plus its backing storage part, by position.
pub open spec fn block_volume_text(i: int) -> Seq<char> {
    "    port volume"@ + dec_str(i as nat) + " : VolumePort;\n"@ + "    part volumeStore"@
        + dec_str(i as nat) + " : VolumeStorage;\n"@
}

pub open spec fn block_volumes_text(n: int) -> Seq<char>
    decreases n,
{
    if n <= 0 {
        Seq::empty()
    } else {
        block_volumes_text(n - 1) + block_volume_text(n - 1)
    }
}

/// The whole block diagram: one port block per exposed endpoint, one
/// volume-port-plus-backing-block pair per mount, and one allocation linking
/// the block to the activity of the same base name.
pub open spec fn spec_block_diagram(c: ParsedContainer) -> Seq<char> {
    "part def "@ + c.name@ + "Block {\n"@ + block_ports_text(c.exposed_ports@.len() as int)
        + block_volumes_text(c.volumes@.len() as int) + "}\n"@ + "allocate "@ + c.name@
        + "Block to "@ + c.name@ + "Activity;\n"@
}

/// Renders the block diagram for a container model.
pub fn sysml_block_diagram(c: &ParsedContainer) -> (r: String)
    ensures
        r@ == spec_block_diagram(*c),
{
    let mut out = String::from_str("part def ");
    out.append(c.name.as_str());
    out.append("Block {\n");
    let ghost head0 = "part def "@ + c.name@ + "Block {\n"@;
    let np = c.exposed_ports.len();
    let mut i: usize = 0;
    while i < np
        invariant
            np == c.exposed_ports@.len(),
            0 <= i <= np,
            out@ == head0 + block_ports_text(i as int),
        decreases np - i,
    {
        out.append("    port port");
        let idx = dec_of_u64(i as u64);
        out.append(idx.as_str());
        out.append(" : NetworkPort;\n");
        assert(out@ =~= head0 + block_ports_text(i + 1));
        i += 1;
    }
    let ghost head1 = head0 + block_ports_text(np as int);
    let nv = c.volumes.len();
    let mut i: usize = 0;
    while i < nv
        invariant
            nv == c.volumes@.len(),
            0 <= i <= nv,
            out@ == head1 + block_volumes_text(i as int),
        decreases nv - i,
    {
        out.append("    port volume");
        let idx = dec_of_u64(i as u64);
        out.append(idx.as_str());
        out.append(" : VolumePort;\n");
        out.append("    part volumeStore");
        let idx2 = dec_of_u64(i as u64);
        out.append(idx2.as_str());
        out.append(" : VolumeStorage;\n");
        assert(out@ =~= head1 + block_volumes_text(i + 1));
        i += 1;
    }
    out.append("}\n");
    out.append("allocate ");
    out.append(c.name.as_str());
    out.append("Block to ");
    out.append(c.name.as_str());
    out.append("Activity;\n");
    assert(out@ =~= spec_block_diagram(*c));
    out
}

} // verus!
