//! The layout's stylesheet, in pieces small enough to read: both widths and
//! both themes' shapes. The colours are the theme's.

use vstd::prelude::*;

verus! {

/// Mobile first. `--tap` is the smallest any control may be, and inputs are
/// 16px because below that iOS Safari zooms on focus.
pub const CSS_1: &'static str = "\
*{box-sizing:border-box}\
/* The user-agent `[hidden]{display:none}` loses to any author `display` \
   rule such as `.row{display:block}`, which drew hidden rows. */\
[hidden]{display:none!important}\
:root{--tap:48px;\
/* The rail's fixed width above 640px, so a pane can be sized against the rest. */\
--rail:76px;\
--mono:ui-monospace,SFMono-Regular,'SF Mono',Menlo,'Cascadia Mono',Consolas,monospace;\
--read:ui-serif,Charter,'Iowan Old Style',Georgia,'Songti TC','Noto Serif CJK TC',serif}\
html{-webkit-text-size-adjust:100%}\
body{margin:0;background:var(--bg);color:var(--text);font-family:var(--mono);font-size:14px;line-height:1.6}\
svg{fill:none;stroke:currentColor;stroke-width:2;stroke-linecap:round;stroke-linejoin:round}\
/* A phone stacks; wider screens are a grid, declared at their width. \
   `min-width:0` stops one long unbroken line widening a column past the screen. \
   The pane grows to fill the screen because a sticky bar is bounded by its \
   containing block: otherwise a short note leaves it floating mid-screen. */\
.app{display:flex;flex-direction:column;min-height:100dvh}\
.pane{display:block;min-width:0;flex:1 1 auto}\
.foot{flex:0 0 auto}\
/* The same for the note's own bar: the prose takes the slack. */\
.read{display:flex;flex-direction:column}\
.read main{flex:1 1 auto}\
.topbar{display:flex;align-items:center;gap:4px;min-height:56px;padding-right:16px;\
border-bottom:1px solid var(--rule);position:sticky;top:0;background:var(--bg);z-index:1}\
.topbar .back{min-width:var(--tap);min-height:var(--tap);display:inline-flex;align-items:center;\
justify-content:center;color:var(--muted);flex:0 0 auto;-webkit-tap-highlight-color:transparent}\
.topbar .back:active{background:var(--press)}\
.topbar .back svg{width:24px;height:24px}\
.topbar .lead{padding-left:16px}\
.topbar .here{font-size:15px;font-weight:600;overflow:hidden;text-overflow:ellipsis;white-space:nowrap}\
.topbar .count{margin-left:auto;color:var(--punct);font-size:13px;flex:0 0 auto;padding-left:12px}\
.searchbar{padding:10px 12px;border-bottom:1px solid var(--rule)}\
.searchbar input{width:100%;height:var(--tap);padding:0 14px;border-radius:10px;\
border:1px solid var(--rule);background:var(--bg-sunk);color:var(--text);\
font-family:var(--mono);font-size:16px}\
.searchbar input::placeholder{color:var(--punct)}\
.problem{margin:8px 2px 0;font-size:12.5px;color:var(--alert)}\
/* Grey rather than a hue: nothing in this palette colours a state. */\
.searchbar .hint{margin:8px 2px 0;font-size:12.5px;color:var(--muted)}\
/* ------------------------------------------- SIGNATURE: the query parse */\
/* See `page::grouping`. Not on a phone, which is short of room. */\
.parse{display:none;margin:9px 2px 1px;flex-wrap:wrap;align-items:center;gap:7px;font-size:12px}\
/* A group is a pill: people do not read brackets. */\
.parse .g{display:inline-flex;align-items:center;gap:6px;padding:2px 9px;\
border:1px solid var(--rule);border-radius:999px;background:var(--bg-sunk)}\
.parse .g b{font-weight:400;color:var(--text)}\
.parse .g b.t{color:var(--tag)}\
.parse .g i{font-style:normal;color:var(--punct);font-size:11px;letter-spacing:.06em}\
.parse .and{color:var(--punct);font-size:11px;letter-spacing:.09em;text-transform:uppercase}\
/* ------------------------------------------------ SIGNATURE: the order */\
/* `.drift .pill`'s chip: a 32px pill in a 48px press. It wraps rather than \
   scrolling, so no chip is out of sight; the split index is sized to hold \
   the four in a line (see the desktop grid). */\
.sortbar{display:flex;flex-wrap:wrap;align-items:center;gap:6px;margin:2px 2px 0}\
.sortbar .lab{flex:0 0 auto;display:inline-flex;align-items:center;\
color:var(--punct);padding-right:2px}\
.sortbar .lab svg{width:15px;height:15px}\
.sortbar a{flex:0 0 auto;display:inline-flex;align-items:center;min-height:var(--tap);\
color:var(--muted);-webkit-tap-highlight-color:transparent}";

pub const CSS_2: &'static str = "/* 8px, not `.drift .pill`'s 11px: 24px less for the index column to find. */\
.sortbar a .pill{display:inline-flex;align-items:center;gap:5px;min-height:32px;\
padding:0 8px;border:1px solid var(--rule);border-radius:999px;\
background:var(--bg-sunk);font-size:12px;white-space:nowrap}\
.sortbar a:active .pill{background:var(--press)}\
/* The one in force loses its fill and takes the id's hue on its edge, \
   rather than coloured text: nothing in this palette colours a state. */\
.sortbar a[aria-current] .pill{background:transparent;border-color:var(--id);color:var(--text)}\
.sortbar a svg{width:12px;height:12px;flex:0 0 auto;color:var(--id)}\
a{color:inherit;text-decoration:none}\
.row{display:block;min-height:64px;padding:12px 16px;border-bottom:1px solid var(--rule);\
-webkit-tap-highlight-color:transparent}\
.row:active{background:var(--press)}\
/* The note the reading pane shows, where both panes are; a press's grey. */\
.row.here{background:var(--press)}\
.row .title{font-family:var(--read);font-size:17px;line-height:1.32}\
.row .title.mono{font-family:var(--mono);font-size:15px}\
.row .name{font-size:15px}\
.row .under{margin-top:4px;font-size:12.5px;display:flex;gap:8px;align-items:baseline;flex-wrap:wrap}\
.row .under:empty{display:none}\
/* ------------------------------------------------ SIGNATURE: the id column */\
/* Written on every row, shown only where there is a column to spare: not on \
   a phone (see 640 and 1024 below). Mono and `--id`, as `noda ls` prints it. */\
.row .ident{display:none;font-family:var(--mono);font-size:12px;color:var(--id)}\
.tags{color:var(--tag)}\
.pin{color:var(--pin)}\
.sep{color:var(--punct)}\
.when{color:var(--muted)}\
/* The one colour marking a state rather than a kind; `style.rs` says why. */\
.overdue{color:var(--overdue)}\
.row .in{color:var(--muted)}\
/* A row with two destinations; the aside is a tap target, so row-tall. */\
.row.split{display:flex;align-items:stretch;gap:12px;padding:0}\
.row.split .most{flex:1 1 auto;min-width:0;padding:12px 0 12px 16px}\
.row.split .aside{flex:0 0 auto;display:flex;align-items:center;padding:0 16px;\
color:var(--muted);font-size:12.5px;-webkit-tap-highlight-color:transparent}\
.row.split .aside:active{background:var(--press)}\
.subject{font-family:var(--read)}\
.mono{font-family:var(--mono)}\
mark{background:var(--mark);color:inherit;border-radius:2px;padding:0 1px}\
.note-head{padding:18px 16px 16px;border-bottom:1px solid var(--rule)}\
.note-head h1{font-family:var(--read);font-size:24px;line-height:1.24;margin:0 0 10px;\
font-weight:600;letter-spacing:-0.01em}\
.filename{font-size:13px}\
.filename .id{color:var(--id)}\
.filename .slug{color:var(--id-dim)}\
.filename .ext{color:var(--punct)}\
.note-meta{margin-top:8px;font-size:12.5px;display:flex;gap:8px;align-items:baseline;flex-wrap:wrap}\
.body{padding:16px;font-family:var(--read);font-size:17px;line-height:1.62;\
overflow-wrap:break-word}\
/* A rendered note. The measure is set on the wide screen, below. */\
.body>:first-child{margin-top:0}\
.body>:last-child{margin-bottom:0}\
.body h1,.body h2,.body h3,.body h4{font-family:var(--read);font-weight:600;\
line-height:1.25;letter-spacing:-0.01em;margin:1.5em 0 .5em}\
.body h1{font-size:1.24em}\
.body h2{font-size:1.12em}\
.body h3{font-size:1em}\
.body h4{font-size:.94em;color:var(--muted)}\
.body p{margin:0 0 .9em}";

pub const CSS_3: &'static str = ".body ul,.body ol{margin:0 0 .9em;padding-left:1.4em}\
.body li{margin:.25em 0}\
.body li p{margin:0}\
/* Disabled: ticking one has to be a commit, as the CLI has no `todo done`. */\
.body li input[type=checkbox]{width:16px;height:16px;margin:0 .45em 0 0;\
accent-color:var(--tag);vertical-align:-2px}\
.body a{color:var(--tag);text-decoration:underline;text-underline-offset:3px;\
text-decoration-thickness:1px}\
/* A link in the id's colour stays in the notebook; the tag's colour leaves. */\
.body a.note{color:var(--id)}\
.body code{font-family:var(--mono);font-size:.85em;background:var(--bg-sunk);\
border:1px solid var(--rule);border-radius:5px;padding:1px 5px}\
.body pre{background:var(--bg-sunk);border:1px solid var(--rule);border-radius:10px;\
padding:12px 14px;margin:0 0 .9em;overflow-x:auto}\
.body pre code{background:none;border:0;padding:0;font-size:14px;line-height:1.55}\
.body blockquote{margin:0 0 .9em;padding:.1em 0 .1em 14px;\
border-left:3px solid var(--rule);color:var(--muted)}\
.body blockquote p:last-child{margin:0}\
.body img{max-width:100%;height:auto;display:block;border-radius:10px;margin:0 0 .9em}\
.body hr{border:0;border-top:1px solid var(--rule);margin:1.5em 0}\
/* A table scrolls inside itself rather than widening the whole note. */\
.body table{display:block;width:fit-content;max-width:100%;overflow-x:auto;\
border-collapse:collapse;margin:0 0 .9em;font-size:.92em}\
.body th,.body td{border-bottom:1px solid var(--rule);padding:8px 12px 8px 0;\
text-align:left;vertical-align:top}\
.body th{font-family:var(--mono);font-size:.8em;font-weight:600;color:var(--muted);\
letter-spacing:.03em;text-transform:uppercase}\
.empty{padding:28px 18px;color:var(--muted)}\
.empty b{display:block;font-family:var(--read);font-size:19px;color:var(--text);\
font-weight:600;margin-bottom:8px}\
.empty a{color:var(--tag);display:inline-flex;align-items:center;min-height:var(--tap);\
text-decoration:underline;text-underline-offset:3px}\
.empty code{color:var(--id)}\
:focus-visible{outline:2px solid var(--tag);outline-offset:-2px}\
.actionbar{position:sticky;bottom:0;display:flex;border-top:1px solid var(--rule);\
background:var(--bg-sunk);padding-bottom:env(safe-area-inset-bottom,0px)}\
/* A write is a POST, so a button, styled here to look like the links. */\
.actionbar a,.actionbar button{flex:1;min-height:64px;padding:9px 0 10px;display:flex;\
flex-direction:column;align-items:center;justify-content:center;gap:4px;color:var(--muted);\
-webkit-tap-highlight-color:transparent}\
.actionbar button{background:none;border:0;font:inherit;cursor:pointer}\
.actionbar a:active,.actionbar button:active{background:var(--press)}\
.actionbar svg{width:26px;height:26px}\
.actionbar span{font-size:11.5px;letter-spacing:0.02em}\
/* Brighter rather than another hue: the palette does not colour a state. */\
.actionbar a[aria-current]{color:var(--text)}\
/* The only use of the alert colour other than a refusal. */\
.actionbar a.danger{color:var(--alert)}\
/* The one action, above the bar at the right where a thumb is, and the only \
   round thing here so it cannot be mistaken for a row. */\
.foot{position:sticky;bottom:0;z-index:2}\
.foot .actionbar{position:static}\
.fab{position:absolute;right:16px;bottom:calc(100% + 16px);\
width:56px;height:56px;border-radius:28px;background:var(--id);color:var(--bg);\
display:flex;align-items:center;justify-content:center;\
/* A ring of background, not a shadow: this sheet never uses depth. */\
box-shadow:0 0 0 5px var(--bg);-webkit-tap-highlight-color:transparent}\
.fab svg{width:26px;height:26px;stroke-width:2.4}\
.fab:active{background:var(--id-dim)}\
/* Room under the last row for the 56px button standing 16px clear. */";

pub const CSS_4: &'static str = "body:has(.fab) main{padding-bottom:76px}\
form.write{padding:16px;display:flex;flex-direction:column;gap:16px}\
form.write label{font-size:12.5px;color:var(--punct);display:block;margin-bottom:6px}\
form.write .hint{display:block;margin-top:6px;font-size:12.5px;color:var(--muted);\
line-height:1.45}\
form.write input[type=text],form.write textarea{width:100%;padding:12px 14px;border-radius:10px;\
border:1px solid var(--rule);background:var(--bg-sunk);color:var(--text);font-size:16px}\
form.write input[type=text]{font-family:var(--mono);min-height:var(--tap)}\
form.write textarea{font-family:var(--read);font-size:17px;line-height:1.6;min-height:300px;\
resize:vertical}\
.buttons{display:flex;gap:10px}\
button,.button{min-height:var(--tap);padding:0 20px;border-radius:10px;\
border:1px solid var(--rule);background:var(--bg-sunk);color:var(--text);\
font-family:var(--mono);font-size:15px;display:inline-flex;align-items:center;\
justify-content:center}\
button.go{background:var(--id);border-color:var(--id);color:var(--bg);font-weight:600;flex:1}\
button.danger{background:var(--alert);border-color:var(--alert);color:var(--bg);\
font-weight:600;flex:1}\
.ticks{display:flex;flex-direction:column}\
/* The whole row is the label, so it is the tap target. `form.write` in the \
   selector to outrank `form.write label` above. */\
form.write label.tick{display:flex;align-items:center;gap:12px;min-height:var(--tap);\
color:var(--tag);font-size:16px;margin:0;width:100%;padding:0 2px;\
border-bottom:1px solid var(--rule)}\
form.write label.tick:last-child{border-bottom:0}\
.tick input{width:22px;height:22px;flex:none;margin:0;accent-color:var(--tag)}\
.said{padding:12px 16px;border-bottom:1px solid var(--rule);color:var(--muted);font-size:13px}\
.said b{color:var(--text);font-weight:600}\
.said code{font-family:var(--mono)}\
.said.bad{color:var(--alert)}\
.said.bad b{color:var(--alert)}\
/* Drift against the remote: uncoloured, as the palette marks no state, and \
   a link, so target-sized. */\
.topbar .drift{margin-left:auto;flex:0 1 auto;min-width:0;display:inline-flex;\
align-items:center;min-height:var(--tap);color:var(--text);\
-webkit-tap-highlight-color:transparent}\
.topbar .drift .pill{display:inline-flex;align-items:center;gap:6px;min-width:0;\
min-height:32px;padding:0 11px;border:1px solid var(--rule);border-radius:999px;\
font-size:12px}\
.topbar .drift .pill span{overflow:hidden;text-overflow:ellipsis;white-space:nowrap}\
.topbar .drift svg{width:14px;height:14px;flex:0 0 auto;color:var(--muted)}\
.topbar .drift:active .pill{background:var(--press)}\
/* `.topbar` to beat `.topbar .count` on specificity, not source order. */\
.topbar .drift+.count{margin-left:10px;padding-left:0}\
.abreast{display:flex;gap:10px;padding:18px 16px 22px}\
.abreast form{flex:1;display:flex}\
.abreast button{flex:1;padding:0 12px}\
button[disabled]{opacity:.45}\
/* What the command printed, line for line. */\
.outcome{display:block;margin-top:6px;font-family:var(--mono);font-size:12.5px;\
line-height:1.5;white-space:pre-line;overflow-wrap:anywhere;color:var(--muted)}\
.said.bad .outcome{color:var(--alert)}\
/* The one thing that moves: a self-reloading page must show it is working. */\
.working b::after{content:\"\";display:inline-block;width:7px;height:7px;\
border-radius:4px;background:var(--id);margin-left:9px;vertical-align:1px;\
animation:breathe 1.4s ease-in-out infinite}\
@keyframes breathe{0%,100%{opacity:.2}50%{opacity:1}}\
@media (prefers-reduced-motion:reduce){.working b::after{animation:none;opacity:.8}}\
.theirs{margin:0;padding:14px;border:1px solid var(--rule);border-radius:10px;\
background:var(--bg-sunk);font-family:var(--read);font-size:16px;line-height:1.55;\
white-space:pre-wrap;overflow-wrap:break-word}";

pub const CSS_5: &'static str = "/* ------------------------------------------------------------ label role */\
/* Names a region; never inside content. */\
.pane-head{font-size:11px;letter-spacing:.09em;text-transform:uppercase;\
color:var(--punct);padding:0 0 8px}\
/* --------------------------------------------------------- the margin note */\
/* Hidden until it holds something: the `display:block` below is on \
   `:not([hidden])`. Without a script it stays hidden for good. */\
.beside{display:none}\
.beside .mini{display:block;padding:8px 0;border-bottom:1px solid var(--rule);\
font-family:var(--read);font-size:14px;line-height:1.35;color:var(--text)}\
.beside .mini:last-child{border-bottom:0}\
.beside .mini:hover{color:var(--tag)}\
.beside .mini span{display:block;font-family:var(--mono);font-size:11px;\
color:var(--id);margin-top:3px}\
.beside .none{margin:0;color:var(--muted);font-size:13px}\
/* Waiting: the status screen's breathing dot, without its bold. */\
.beside .said{margin:0;padding:0;border-bottom:0;font-size:13px}\
.beside .said b{font-weight:400;color:var(--muted)}\
/* Below two-pane width one pane shows, by route. Its own query, so no two \
   `display` rules fight on source order. */\
@media (max-width:1023px){.app.split.at-list .read{display:none}}\
/* A note page is sent without its listing (`script::PANES`). `.indexed` says \
   the pane has rows: set by the server on the listing route and by the script \
   on a note route before first paint, so an empty pane is never a column. */\
.app.split.at-note .index{display:none}\
/* A phone reading a note gets one bar, the note's; the rest is up the chevron. */\
@media (max-width:639px){\
.app.split.at-note .foot{display:none}\
.app.split.at-note main{padding-bottom:16px}}\
/* ================================================================= TABLET */\
/* The bottom bar becomes a rail. It is last in the markup, so a phone's \
   sticks to the foot, and placed first here. */\
@media (min-width:640px){\
.app{display:grid;grid-template-columns:var(--rail) minmax(0,1fr);height:100dvh;overflow:hidden}\
.foot{grid-column:1;grid-row:1/-1;position:static;display:flex;flex-direction:column;\
align-items:stretch;background:var(--bg-sunk);border-right:1px solid var(--rule)}\
.foot .actionbar{flex-direction:column;border-top:0;background:transparent;padding:0}\
.foot .actionbar a{flex:0 0 auto;min-height:62px}\
/* The action first in the rail, and squarish to sit in a column of them. */\
.fab{order:-1;position:static;width:44px;height:44px;border-radius:13px;\
margin:14px auto 12px;box-shadow:none}\
.fab svg{width:22px;height:22px}\
/* Each pane scrolls on its own, so a listing keeps its place. */\
.pane{grid-column:2;min-height:0;overflow-y:auto}\
.app:has(.fab) main{padding-bottom:24px}\
/* One pane hangs off the rail, uncentred, capped at a readable width. */\
.app:not(.split) .topbar,.app:not(.split) main{max-width:80em}\
.topbar,.searchbar{padding-left:24px;padding-right:24px}\
.topbar .back{margin-left:-12px}\
.topbar .lead{padding-left:0}\
.parse{display:flex}\
/* The row extends into `ls -l`'s columns: id, title, day, tags. Tags last, \
   as the one column a note may lack would shift the rest. */\
.rows .row{display:flex;align-items:baseline;gap:20px;min-height:0;padding:13px 24px}\
.rows .row .ident{display:block;flex:0 0 auto}\
/* The day is at the right, where `-l` prints it; the copy by the id is for \
   the narrow index pane below. */\
.rows .row .ident .day{display:none}\
.rows .row .title,.rows .row .name{flex:1 1 auto}\
.rows .row .under{margin:0;flex:0 0 auto;justify-content:flex-end}\
.rows .row.split{display:flex}\
.rows .row.split .most{display:flex;align-items:baseline;gap:20px;padding:13px 0 13px 24px}\
.rows .row.split .aside{padding:0 24px}\
/* Short rows in columns; `column-width` rather than a grid for the \
   hairline `column-rule`. */\
.rows.cols{column-width:270px;column-gap:0;column-rule:1px solid var(--rule)}\
.rows.cols .row{break-inside:avoid;display:block;padding:13px 24px}\
.rows.cols .row .under{margin-top:3px;justify-content:flex-start}\
.rows.cols.wide{column-width:400px}\
.rows.cols .row.split{display:flex;padding:0}\
.rows.cols .row.split .most{display:block;padding:13px 0 13px 24px}\
.rows.cols .row.split .aside{padding:0 24px}\
.rows.facts .row{display:grid;grid-template-columns:150px minmax(0,1fr);gap:0}\
.rows.facts .row .under{justify-content:flex-start}\
.note-head{padding:26px 32px 20px}\
.note-head h1{font-size:28px}\
/* The measure is on the body, in its own font: on `main` the `em` would be \
   the chrome's monospace. */\
.body{font-size:18px;line-height:1.65;max-width:34em;padding:24px 32px 8px}\
.said{padding:14px 32px}\
.empty{padding:34px 32px}\
form.write{padding:24px 32px;max-width:52em}\
form.write textarea{min-height:min(56vh,560px)}\
.buttons{justify-content:flex-start}\
button.go,button.danger{flex:0 0 auto;min-width:190px}\
.abreast{padding:20px 32px 28px;max-width:52em}\
/* The note's bar becomes a toolbar at the head, by `order`: one element. */\
.read{display:flex;flex-direction:column}\
.read .topbar{order:-2}\
.read .actionbar{order:-1;position:static;background:var(--bg);border-top:0;\
border-bottom:1px solid var(--rule);justify-content:flex-start;gap:2px;padding:7px 20px}\
.read .actionbar a,.read .actionbar button{flex:0 0 auto;flex-direction:row;gap:8px;\
min-height:38px;padding:0 13px;border-radius:9px;font-size:13px}\
.read .actionbar a:hover,.read .actionbar button:hover{background:var(--press);\
color:var(--text)}\
/* Keeps Delete's colour against the hover rule above. */\
.read .actionbar a.danger:hover{color:var(--alert)}\
.read .actionbar svg{width:17px;height:17px}\
.read main{order:0;flex:1 1 auto}}";

pub const CSS_6: &'static str = "/* ================================================================ DESKTOP */\
/* The index stays beside the note. Three columns only with `.indexed`; \
   without a script it is the tablet's two. \
   The 356px floor is measured: 288px of order chips, 40px padding, 2px bar \
   and 24px for a wider monospace. At 300px the fourth chip wrapped. */\
@media (min-width:1024px){\
.app.split.indexed{grid-template-columns:var(--rail) clamp(356px,26vw,380px) minmax(0,1fr)}\
.app.split.indexed .index{grid-column:2;border-right:1px solid var(--rule)}\
.app.split.indexed .read{grid-column:3}\
.app.split.indexed.at-note .index{display:block}\
.app.split.at-list .read{display:flex}\
/* In the narrow column the row stacks again, tighter than a phone's. */\
.app.split .index .rows .row{display:block;padding:11px 20px;min-height:0}\
/* The id line takes the day at its other end; the copy under the title goes. */\
.app.split .index .rows .row .ident{display:flex;justify-content:space-between;gap:10px}\
.app.split .index .rows .row .ident .day{display:block;color:var(--muted)}\
.app.split .index .rows .row .title{font-size:15.5px;line-height:1.34;margin-top:2px}\
.app.split .index .rows .row .under{margin-top:2px;justify-content:flex-start;font-size:12px}\
.app.split .index .rows .row .under .when,.app.split .index .rows .row .under .sep{display:none}\
.app.split .index .searchbar,.app.split .index .topbar{padding-left:20px;padding-right:20px}\
.app.split .index .empty{padding:26px 20px}\
/* Head and body share one column, so the title's rule spans the prose. */\
.app.split .read main.note{width:100%;max-width:44em;margin-inline:auto}\
.app.split .read .body{max-width:none}\
/* The note's chevron goes when the listing is beside it. */\
.app.split.indexed .read .topbar .back{display:none}}\
/* =================================================================== WIDE */\
/* Backlinks in the margin. `margined`, like `indexed`, is set by the script \
   before first paint, so the column is reserved and the prose laid out once; \
   without a script the note keeps its centred measure. */\
@media (min-width:1440px){\
/* `align-content:start` is load-bearing: the default stretches spare height \
   among the rows, and a short note's body jumped 40px when the margin landed. */\
.app.split.at-note.margined .read main.note{max-width:none;margin-inline:0;\
display:grid;grid-template-columns:minmax(0,38em) 236px;column-gap:48px;\
align-items:start;align-content:start;justify-content:center}\
/* Head and body share the track, without padding. */\
.app.split.at-note.margined .read .note-head,\
.app.split.at-note.margined .read .body{grid-column:1;padding-left:0;padding-right:0}\
.app.split.at-note.margined .read .beside:not([hidden]){display:block;grid-column:2;\
grid-row:1/span 2;position:sticky;top:24px;padding:26px 0 0}}\
/* Extra width goes to the index and the margin, never the measure. */\
@media (min-width:1800px){\
.app.split.indexed{grid-template-columns:var(--rail) clamp(340px,22vw,470px) minmax(0,1fr)}\
.app.split.at-note.margined .read main.note{grid-template-columns:minmax(0,40em) 290px;\
column-gap:64px}}\
/* ============================================ SIGNATURE: a row is a notebook */\
/* Last on purpose: some rules below beat earlier ones of equal weight by \
   source order. The front page has no rail, so no grid (it left an empty 76px \
   column), and no `max-width:80em`: its rows are a table, not prose. */\
@media (min-width:640px){\
.app.root{display:block;height:auto;overflow:visible}\
/* Not its own scroll container, or the sticky bar never sticks. */\
.app.root .pane{overflow:visible;min-height:0}\
.app.root .topbar,.app.root main{max-width:none}}\
/* `.books`, or `.rows .row`'s padding at 640 wins and the row is indented twice. */\
.books .row.split{position:relative;padding:0}\
.books .row.split .most{padding:13px 0 13px 28px}\
.books .most{min-width:0}\
/* A directory name, so mono. `display:block` because `text-overflow` does ";

pub const CSS_7: &'static str = "nothing to an inline box; a tight line keeps it by the facts under it. */\
.books .name{display:block;font-family:var(--mono);font-size:16px;line-height:1.3;\
color:var(--text);overflow:hidden;text-overflow:ellipsis;white-space:nowrap}\
/* `noda notebook ls`'s uncoloured `*`. Absolute, so every name starts at the \
   same x; `top` is padding plus half a line, not `50%`, which slides when the \
   facts wrap. */\
.books .mark{position:absolute;left:11px;top:23px;transform:translateY(-50%);\
width:7px;height:7px;border-radius:4px;background:var(--text)}\
.books .sr{position:absolute;width:1px;height:1px;overflow:hidden;clip-path:inset(50%)}\
/* `.rows` to beat `.rows .row .under`'s `flex-end`. */\
.rows.books .row .under{justify-content:flex-start;line-height:1.45;row-gap:0}\
.books .holds{color:var(--muted)}\
/* At 390px three facts need 250px of about 215 and wrap into loose bands, so \
   a phone drops the file count, and `:has` its separator. */\
@media (max-width:639px){\
.books .under .files,.books .under .sep:has(+ .files){display:none}}\
.books .aside .pill{display:inline-flex;align-items:center;gap:6px;min-height:32px;\
padding:0 11px;border:1px solid var(--rule);border-radius:999px;font-size:12px;\
white-space:nowrap}\
.books .aside svg{width:14px;height:14px;flex:0 0 auto;color:var(--muted)}\
.books a.aside:active .pill{background:var(--press)}\
.books .row .aside{align-items:center}\
.count .more,.books .stamp{display:none}\
@media (min-width:640px){\
.count .more{display:inline}\
/* The name column has a floor and a ceiling, for short and long names. */\
.books .row.split .most{display:grid;grid-template-columns:minmax(9em,15em) minmax(0,1fr);\
gap:20px;align-items:baseline;padding:15px 0 15px 36px}\
.books .mark{left:19px;top:25px}\
/* A floor under the chip, so `.most` is one width in every row. \
   `align-self:stretch` keeps the chip row-tall (a 48px target): at this width \
   `.rows .row{align-items:baseline}` outranks `.row.split`'s `stretch`. */\
.books .row.split .aside{min-width:15em;justify-content:flex-end;padding:0 24px;\
align-self:stretch}}\
/* The last commit's day, at the right where `-l` prints a date, where it fits. */\
@media (min-width:1024px){\
.books .row.split .most{grid-template-columns:minmax(9em,16em) minmax(0,1fr) auto}\
.books .stamp{display:block;color:var(--muted);font-size:12.5px;justify-self:end}}\
";

/// The sheet, whole.
pub open spec fn css() -> Seq<char> {
    CSS_1@ + CSS_2@ + CSS_3@ + CSS_4@ + CSS_5@ + CSS_6@ + CSS_7@
}

} // verus!
