# ip_gacha_roll

Rerolls the PPPoE connection of a Keenetic router until the provider hands
out a public IPv4 address that is reachable from outside, and watches that it
stays so.

- `src/` is the verified library: number and address text (`text`, `ipv4`),
  the router's login handshake and commands (`keen`, `digest`), the NAT
  monitor and its recovery (`nat_monitor`), the `/roll` command (`roll`), the
  bot's commands (`bot`), the desktop front end's settings and NAT report
  (`settings`, `check_nat`).
- `app/` is the Telegram bot around it: HTTP, TCP probes, timers and chat I/O.
