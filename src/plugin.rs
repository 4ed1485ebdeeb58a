//! The bridge plugin: a bootstrap script that reports back to the launching
//! process, with the caller's script as a module beneath it.
use vstd::prelude::*;

use rbx_dom_weak::types::Variant;
use rbx_dom_weak::{InstanceBuilder, WeakDom};

use crate::error::RunError;
use crate::text::{decimal_string, digits_of, replace_all, replaced};

verus! {

/// The bootstrap script. `{{PORT}}` and `{{SERVER_ID}}` are filled in for each
/// run. It runs the `Main` module beneath it, forwards every line of output
/// to the listener as `<session id>\n<level>\n<text>`, and ends with a
/// `Terminate` message.
pub const PLUGIN_TEMPLATE: &'static str = "local HttpService = game:GetService(\"HttpService\")
local LogService = game:GetService(\"LogService\")
local RunService = game:GetService(\"RunService\")

if RunService:IsRunning() then
	return
end

local PORT = {{PORT}}
local SERVER_ID = \"{{SERVER_ID}}\"
local URL = \"http://localhost:\" .. tostring(PORT) .. \"/messages\"

local LEVELS = {
	[Enum.MessageType.MessageOutput] = \"Print\",
	[Enum.MessageType.MessageInfo] = \"Info\",
	[Enum.MessageType.MessageWarning] = \"Warning\",
	[Enum.MessageType.MessageError] = \"Error\",
}

local function send(kind, text)
	pcall(function()
		HttpService:PostAsync(URL, SERVER_ID .. \"\\n\" .. kind .. \"\\n\" .. text, Enum.HttpContentType.TextPlain)
	end)
end

local connection = LogService.MessageOut:Connect(function(message, messageType)
	send(LEVELS[messageType] or \"Print\", message)
end)

local ok, err = pcall(function()
	require(script.Main)()
end)

if not ok then
	send(\"Error\", tostring(err))
end

connection:Disconnect()
send(\"Terminate\", \"\")
";

/// The port the listener binds and the plugin connects to.
pub const LISTEN_PORT: u16 = 50312;

/// The file name the plugin is installed under in Studio's plugins folder.
pub const PLUGIN_FILE_NAME: &'static str = "run-in-roblox.rbxmx";

pub const PORT_PLACEHOLDER: &'static str = "{{PORT}}";

pub const SERVER_ID_PLACEHOLDER: &'static str = "{{SERVER_ID}}";

pub const BOOTSTRAP_CLASS: &'static str = "Script";

pub const BOOTSTRAP_NAME: &'static str = "run-in-roblox-plugin";

pub const MAIN_CLASS: &'static str = "ModuleScript";

pub const MAIN_NAME: &'static str = "Main";

/// The bootstrap script's source for a listener on `port` and session `server_id`.
pub open spec fn bootstrap_source(port: u16, server_id: Seq<char>) -> Seq<char> {
    replaced(
        replaced(PLUGIN_TEMPLATE@, PORT_PLACEHOLDER@, digits_of(port as nat, 10)),
        SERVER_ID_PLACEHOLDER@,
        server_id,
    )
}

/// The caller's script wrapped as a function of no arguments.
pub open spec fn main_source(script: Seq<char>) -> Seq<char> {
    "return function()\n"@ + script + "\nend"@
}

/// One script instance of the plugin tree.
pub struct PluginNode {
    pub class_name: String,
    pub name: String,
    pub source: String,
}

/// The plugin tree: the bootstrap script, with the main module as its only child.
pub struct PluginTree {
    pub bootstrap: PluginNode,
    pub main: PluginNode,
}

/// The XML model file that rbx_xml writes for the plugin tree whose two
/// nodes have these classes, names and sources.
pub uninterp spec fn rbxmx_of(
    root_class: Seq<char>,
    root_name: Seq<char>,
    root_source: Seq<char>,
    child_class: Seq<char>,
    child_name: Seq<char>,
    child_source: Seq<char>,
) -> Seq<u8>;

/// rbx_xml's encoding error, carried only as far as it takes to map it to
/// `RunError::Encode`.
#[verifier::external_type_specification]
#[verifier::external_body]
pub struct ExEncodeError(rbx_xml::EncodeError);

/// Relies on rbx_xml::to_writer_default to write the tree, built with
/// rbx_dom_weak's InstanceBuilder, WeakDom::new and WeakDom::insert, as an
/// XML model whose root is the bootstrap script. Its output depends on the
/// tree alone: referents come from a counter and properties are sorted.
/// Writing two script instances with string sources into a `Vec` cannot
/// fail: a `Vec` gives no I/O error and a string converts to the `Source`
/// property's type.
#[verifier::external_body]
fn encode_tree(tree: &PluginTree) -> (r: Result<Vec<u8>, rbx_xml::EncodeError>)
    ensures
        r is Ok,
        r->Ok_0@ == rbxmx_of(
            tree.bootstrap.class_name@,
            tree.bootstrap.name@,
            tree.bootstrap.source@,
            tree.main.class_name@,
            tree.main.name@,
            tree.main.source@,
        ),
{
    let b = &tree.bootstrap;
    let m = &tree.main;
    let mut dom = WeakDom::new(InstanceBuilder::new(b.class_name.as_str()).with_name(
        b.name.as_str(),
    ).with_property("Source", Variant::String(b.source.clone())));
    let root = dom.root_ref();
    dom.insert(root, InstanceBuilder::new(m.class_name.as_str()).with_name(m.name.as_str()).with_property("Source", Variant::String(m.source.clone())));
    let mut out = Vec::new();
    rbx_xml::to_writer_default(&mut out, &dom, &[root]).map(|_| out)
}

fn str_to_string(s: &str) -> (r: String)
    ensures
        r@ == s@,
{
    String::from_str(s)
}

/// Everything needed to build the plugin for one run.
pub struct RunInRbxPlugin<'a> {
    pub port: u16,
    pub server_id: &'a str,
    pub lua_script: &'a str,
}

impl<'a> RunInRbxPlugin<'a> {
    /// The tree this plugin is made of.
    pub open spec fn spec_tree_ok(&self, t: PluginTree) -> bool {
        &&& t.bootstrap.class_name@ == BOOTSTRAP_CLASS@
        &&& t.bootstrap.name@ == BOOTSTRAP_NAME@
        &&& t.bootstrap.source@ == bootstrap_source(self.port, self.server_id@)
        &&& t.main.class_name@ == MAIN_CLASS@
        &&& t.main.name@ == MAIN_NAME@
        &&& t.main.source@ == main_source(self.lua_script@)
    }

    /// The model file that `write` appends.
    pub open spec fn spec_bytes(&self) -> Seq<u8> {
        rbxmx_of(
            BOOTSTRAP_CLASS@,
            BOOTSTRAP_NAME@,
            bootstrap_source(self.port, self.server_id@),
            MAIN_CLASS@,
            MAIN_NAME@,
            main_source(self.lua_script@),
        )
    }

    /// Builds the two-node plugin tree: the bootstrap script with the port
    /// and session id filled in, and the caller's script wrapped as a module.
    pub fn build_plugin(&self) -> (r: PluginTree)
        ensures
            self.spec_tree_ok(r),
    {
        proof {
            reveal_strlit("{{PORT}}");
            reveal_strlit("{{SERVER_ID}}");
        }
        let port = decimal_string(self.port);
        let with_port = replace_all(PLUGIN_TEMPLATE, PORT_PLACEHOLDER, port.as_str());
        let complete_source = replace_all(with_port.as_str(), SERVER_ID_PLACEHOLDER, self.server_id);
        let mut main_src = str_to_string("return function()\n");
        main_src.append(self.lua_script);
        main_src.append("\nend");
        PluginTree {
            bootstrap: PluginNode {
                class_name: str_to_string(BOOTSTRAP_CLASS),
                name: str_to_string(BOOTSTRAP_NAME),
                source: complete_source,
            },
            main: PluginNode {
                class_name: str_to_string(MAIN_CLASS),
                name: str_to_string(MAIN_NAME),
                source: main_src,
            },
        }
    }

    /// Appends the plugin, as an XML model file, to `output`.
    pub fn write(&self, output: &mut Vec<u8>) -> (r: Result<(), RunError>)
        ensures
            r is Ok,
            final(output)@ == old(output)@ + self.spec_bytes(),
    {
        let tree = self.build_plugin();
        match encode_tree(&tree) {
            Ok(bytes) => {
                let mut i: usize = 0;
                let ghost start = output@;
                while i < bytes.len()
                    invariant
                        i <= bytes@.len(),
                        output@ == start + bytes@.subrange(0, i as int),
                    decreases bytes@.len() - i,
                {
                    output.push(bytes[i]);
                    i += 1;
                    assert(output@ =~= start + bytes@.subrange(0, i as int));
                }
                assert(bytes@.subrange(0, bytes@.len() as int) =~= bytes@);
                Ok(())
            },
            Err(_) => Err(RunError::Encode),
        }
    }
}

} // verus!
