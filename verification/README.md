# easytier_gateway

A verified library for EasyTier full-tunnel gateways: a source machine routes its managed
traffic through an exit machine over the EasyTier overlay.

`src/` holds the logic, each function with a contract that Verus proves:

- device policies and their validation (`policy`), the command plans that apply and clean them
  up on Linux and OpenWrt (`linux`, `openwrt`, `platform`, `shell`, `command`), the protected
  control-plane routes (`control_plane`), running a plan and guarding it (`executor`,
  `rollback`, `state`), dry-run plans (`planner`), runtime reports (`report`, `reporter`),
  what to apply next (`reconciler`), the agent's command-line decisions (`runner`) and its
  credential exchanges (`credential`);
- a node's gateway rules pushed over RPC and its state machine (`gw_executor`, `gateway`);
- the web service's gateway policies and device policies (`web_policy`), its policy store
  (`policy_store`), the node list and quick apply (`node_views`), pair set-up (`pair`), client
  locations (`location`) and machine credentials (`web_credential`);
- text and sequence helpers (`text`, `seqs`, `assoc`);
- `outside`: the calls into `sha2`, `uuid`, `chrono`, `cidr` and `password-auth`, each with
  the contract it is trusted to meet.

`app/` is the agent program around the library: the command line, HTTP, files and processes;
it also holds the GeoIP lookups of client addresses (`geoip`).
`tests/` exercises the library from outside.
